use mikino_expr::{pretty_md, Mode, Style};

#[test]
fn split_finds_first_marker() {
    let (pref, rest) = Mode::split("ab`cd");
    assert_eq!(pref, "ab");
    let (mode, suff) = rest.unwrap();
    assert_eq!(mode, Mode::Code);
    assert_eq!(suff, "cd");

    let (pref, rest) = Mode::split("x**y");
    assert_eq!(pref, "x");
    let (mode, suff) = rest.unwrap();
    assert_eq!(mode, Mode::Bold);
    assert_eq!(suff, "y");

    let (pref, rest) = Mode::split("x*y");
    assert_eq!(pref, "x");
    let (mode, suff) = rest.unwrap();
    assert_eq!(mode, Mode::Ita);
    assert_eq!(suff, "y");

    let (pref, rest) = Mode::split("no markers");
    assert_eq!(pref, "no markers");
    assert!(rest.is_none());

    // a trailing single star is an italic marker with an empty suffix
    let (pref, rest) = Mode::split("x*");
    assert_eq!(pref, "x");
    let (mode, suff) = rest.unwrap();
    assert_eq!(mode, Mode::Ita);
    assert_eq!(suff, "");
}

#[test]
fn pretty_md_consumes_balanced_spans() {
    // under the identity styling the spans keep their text and only the
    // markers disappear
    assert_eq!(pretty_md(&(), "a **b** c"), "a b c");
    assert_eq!(pretty_md(&(), "a *b* c"), "a b c");
    assert_eq!(pretty_md(&(), "a `b` c"), "a b c");
    assert_eq!(pretty_md(&(), "`x` and **y**"), "x and y");
    assert_eq!(pretty_md(&(), "plain text"), "plain text");
    assert_eq!(pretty_md(&(), ""), "");
}

#[test]
fn pretty_md_gives_up_on_unbalanced_or_nested() {
    // unbalanced: an opened span never closes before the text ends
    assert_eq!(pretty_md(&(), "a `b c"), "a `b c");
    // nested: a different marker arrives before the span closes
    assert_eq!(pretty_md(&(), "a `b* c* d`"), "a `b* c* d`");
}

#[test]
fn identity_style_methods() {
    let st = ();
    assert_eq!(st.bold("x"), "x");
    assert_eq!(st.red("x"), "x");
    assert_eq!(st.green("x"), "x");
    assert_eq!(st.under("x"), "x");
    assert_eq!(st.gray("x"), "x");
    assert_eq!(st.ita("x"), "x");
    assert_eq!(st.code("x"), "x");
    assert_eq!(st.plain("x"), "x");
}
