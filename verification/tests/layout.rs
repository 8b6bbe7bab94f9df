use gleam_format::pretty;
use gleam_format::pretty::{break_, nil, render, text, Document};

fn pair(a: &'static str, b: &'static str) -> Document<'static> {
    text("(").append(text(a)).append(break_(",", ", ")).append(text(b)).append(text(")")).group()
}

#[test]
fn empty_document_renders_nothing() {
    assert_eq!(render(&nil(), 80), "");
}

#[test]
fn text_renders_as_it_is() {
    assert_eq!(render(&text("hello"), 80), "hello");
}

#[test]
fn group_that_fits_stays_flat() {
    let doc = text("a").append(break_(",", ", ")).append(text("b")).group();
    assert_eq!(render(&doc, 80), "a, b");
}

#[test]
fn group_that_does_not_fit_breaks_every_strict_break() {
    let doc = text("aaaa")
        .append(break_(",", ", "))
        .append(text("bbbb"))
        .append(break_(",", ", "))
        .append(text("cccc"))
        .nest(2)
        .group();
    assert_eq!(render(&doc, 8), "aaaa,\n  bbbb,\n  cccc");
}

#[test]
fn line_indents_by_the_enclosing_nest() {
    let doc = text("a").append(pretty::line().append(text("b")).nest(4));
    assert_eq!(render(&doc, 80), "a\n    b");
}

#[test]
fn concat_of_nothing_is_empty() {
    let docs: Vec<Document<'static>> = Vec::new();
    assert!(pretty::concat(docs).is_empty());
}

#[test]
fn a_flex_break_packs_the_line() {
    let mut doc = text("aaa");
    for _ in 0..5 {
        doc = doc.append(pretty::flex_break(",", ", ")).append(text("aaa"));
    }
    assert_eq!(render(&doc.group(), 13), "aaa, aaa, aaa,\naaa, aaa, aaa");
}

#[test]
fn a_forced_break_breaks_the_enclosing_group() {
    let inner = text("a").append(break_("", " ")).append(text("b")).force_break();
    let outer = text("x").append(break_("", " ")).append(inner).group();
    assert_eq!(render(&outer, 80), "x\na\nb");
}

#[test]
fn an_inner_group_may_stay_flat_in_a_broken_one() {
    let inner = text("b").append(break_(",", ", ")).append(text("c")).group();
    let outer = text("aaaaaaaa").append(break_("", " ")).append(inner).nest(2).group();
    assert_eq!(render(&outer, 10), "aaaaaaaa\n  b, c");
}

#[test]
fn text_that_ends_exactly_at_the_limit_fits() {
    let doc = text("aaaa").append(break_("", " ")).append(text("bbbbb")).group();
    assert_eq!(render(&doc, 10), "aaaa bbbbb");
    assert_eq!(render(&doc, 9), "aaaa\nbbbbb");
}

#[test]
fn columns_are_counted_in_characters() {
    let doc = text("ééé").append(break_("", " ")).append(text("üü")).group();
    assert_eq!(render(&doc, 6), "ééé üü");
    assert_eq!(render(&doc, 5), "ééé\nüü");
}

#[test]
fn lines_make_blank_lines() {
    let doc = text("a").append(pretty::lines(2)).append(text("b")).append(pretty::lines(0)).append(text("c"));
    assert_eq!(render(&doc.nest(2), 80), "a\n\n  b  c");
}

#[test]
fn join_puts_the_separator_between() {
    let docs = vec![text("a"), text("b"), text("c")];
    assert_eq!(render(&pretty::join(docs, text("-")), 80), "a-b-c");
    assert_eq!(render(&pretty::join(vec![text("a")], text("-")), 80), "a");
    assert_eq!(render(&pretty::join(vec![], text("-")), 80), "");
}

#[test]
fn empty_documents() {
    assert!(nil().is_empty());
    assert!(text("").is_empty());
    assert!(pretty::lines(0).is_empty());
    assert!(break_("", " ").is_empty());
    assert!(text("").append(nil()).group().nest(2).force_break().is_empty());
    assert!(!text("a").is_empty());
    assert!(!pretty::line().is_empty());
    assert!(!break_(",", "").is_empty());
    assert!(!Document::String(" ".to_string()).is_empty());
}

#[test]
fn surround_wraps_in_text() {
    assert_eq!(render(&text("x").surround("(", ")"), 80), "(x)");
}

#[test]
fn a_flex_break_breaks_before_a_group_that_would_not_fit() {
    let doc = pair("a", "b").append(pretty::flex_break(",", ", ")).append(pair("c", "d")).group();
    assert_eq!(render(&doc, 14), "(a, b), (c, d)");
    assert_eq!(render(&doc, 13), "(a, b),\n(c, d)");
    assert_eq!(render(&doc, 5), "(a,\nb),\n(c,\nd)");
}

#[test]
fn text_with_a_newline_breaks_the_group_around_it() {
    let doc = text("a").append(break_(",", ", ")).append(text("b\nc")).group();
    assert_eq!(render(&doc, 80), "a,\nb\nc");
    let owned = text("a").append(break_("", " ")).append(Document::String("b\nc".to_string())).group();
    assert_eq!(render(&owned, 80), "a\nb\nc");
    let inner = text("a").append(break_("", " ")).append(text("b")).group();
    let outer = inner.append(break_("", " ")).append(text("c\nd")).group();
    assert_eq!(render(&outer, 80), "a b\nc\nd");
}
