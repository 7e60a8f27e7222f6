use spa_device::resolver::{render, BEGIN, END};

fn entries() -> Vec<(String, String)> {
    vec![
        ("demo-svc".into(), "100.64.0.1".into()),
        ("db-svc".into(), "100.64.0.2".into()),
    ]
}

#[test]
fn adds_block_preserving_existing() {
    let out = render("127.0.0.1 localhost\n", &entries());
    assert!(out.starts_with("127.0.0.1 localhost\n"));
    assert!(out.contains("100.64.0.1\tdemo-svc"));
    assert!(out.contains("100.64.0.2\tdb-svc"));
    assert!(out.contains(BEGIN) && out.contains(END));
}

#[test]
fn reapply_is_idempotent() {
    let once = render("127.0.0.1 localhost\n", &entries());
    let twice = render(&once, &entries());
    assert_eq!(once, twice);
}

#[test]
fn empty_entries_removes_block_and_keeps_rest() {
    let with = render("127.0.0.1 localhost\n", &entries());
    let without = render(&with, &[]);
    assert_eq!(without, "127.0.0.1 localhost\n");
    assert!(!without.contains(BEGIN));
}

#[test]
fn rendered_text_is_exact() {
    let block = "# >>> spa-agent (managed) >>>\n100.64.0.1\tdemo-svc\n100.64.0.2\tdb-svc\n# <<< spa-agent (managed) <<<\n";
    let out = render("a\r\n\n  # >>> spa-agent (managed) >>>\nold\n", &entries());
    assert_eq!(out, format!("a\r\n\n{block}"));
    assert_eq!(render("", &entries()), block);
    assert_eq!(render("tail\r", &entries()), format!("tail\r\n{block}"));
    assert_eq!(render("tail", &entries()), format!("tail\n{block}"));
}

#[test]
fn text_without_a_block_is_untouched() {
    for text in [
        "",
        "\n",
        "127.0.0.1 localhost\n\n",
        " \u{2003}\n",
        "tail\r",
        "a\r\nb  \n\n\nc",
    ] {
        assert_eq!(render(text, &[]), text);
    }
}

#[test]
fn text_around_the_block_is_untouched() {
    let text = "a\r\n# >>> spa-agent (managed) >>>\nold\n# <<< spa-agent (managed) <<<\n\n b \n\n";
    assert_eq!(render(text, &[]), "a\r\n\n b \n\n");
    let once = render(text, &entries());
    assert!(once.starts_with("a\r\n\n b \n\n# >>> spa-agent (managed) >>>\n"));
    assert_eq!(render(&once, &entries()), once);
    assert_eq!(render(&once, &[]), "a\r\n\n b \n\n");
}

#[test]
fn unfinished_line_is_finished_before_a_block() {
    let once = render("a", &entries());
    assert!(once.starts_with("a\n# >>> "));
    assert_eq!(render(&once, &entries()), once);
    assert_eq!(render(&once, &[]), "a\n");
}

#[test]
fn last_render_wins() {
    let once = render("x y\n", &entries());
    let other = vec![("n".to_string(), "1.2.3.4".to_string())];
    assert_eq!(render(&once, &other), render("x y\n", &other));
}
