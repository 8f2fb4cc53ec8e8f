use nb_rs::search::Snippet;

#[test]
fn render_coloured_snippet() {
    colored::control::set_override(true);
    let s = Snippet { number: 12, context: None, text: "a Hay b".to_string(), start: 2, end: 5 };
    assert_eq!(
        s.render(),
        "  \u{1b}[32m12\u{1b}[0m\u{1b}[34m:\u{1b}[0m a \u{1b}[31mHay\u{1b}[0m b"
    );
    colored::control::unset_override();
}
