use gleam_format::ast::{ModuleExtra, SrcSpan};
use gleam_format::pretty::render;
use gleam_format::trivia::{
    commented, comments_before, printed_comments, printed_comments_at_end, Comment, Formatter,
    Intermediate,
};

fn comment(start: u32, content: &str) -> Comment<'_> {
    Comment { start, content }
}

fn shown(doc: Option<gleam_format::pretty::Document<'_>>) -> Option<String> {
    doc.map(|d| render(&d, 80))
}

#[test]
fn comments_up_to_the_limit_are_popped() {
    let comments = [comment(0, " a"), comment(10, " b"), comment(20, " c")];
    let (popped, rest, lines) = comments_before(&comments, &[], 10, true);
    assert_eq!(popped, vec![Some(" a"), Some(" b")]);
    assert_eq!(rest, &comments[2..]);
    assert!(lines.is_empty());
}

#[test]
fn nothing_before_the_limit_pops_nothing() {
    let comments = [comment(5, " a")];
    let (popped, rest, lines) = comments_before(&comments, &[7], 4, true);
    assert!(popped.is_empty());
    assert_eq!(rest, &comments[..]);
    assert_eq!(lines, &[7]);
}

#[test]
fn a_blank_line_between_comments_is_a_marker() {
    let comments = [comment(0, " a"), comment(10, " b")];
    let (popped, _, lines) = comments_before(&comments, &[5], 20, true);
    assert_eq!(popped, vec![Some(" a"), None, Some(" b")]);
    assert!(lines.is_empty());
}

#[test]
fn neighbouring_blank_lines_are_one_marker() {
    let comments = [comment(0, " a"), comment(10, " b")];
    let (popped, _, _) = comments_before(&comments, &[5, 6, 7], 20, true);
    assert_eq!(popped, vec![Some(" a"), None, Some(" b")]);
}

#[test]
fn separate_runs_of_blank_lines_are_separate_markers() {
    let comments = [comment(0, " a"), comment(10, " b")];
    let (popped, _, _) = comments_before(&comments, &[3, 5], 20, true);
    assert_eq!(popped, vec![Some(" a"), None, None, Some(" b")]);
}

#[test]
fn leading_blank_lines_are_trimmed() {
    let comments = [comment(10, " a")];
    let (popped, _, lines) = comments_before(&comments, &[1, 2, 5], 20, true);
    assert_eq!(popped, vec![Some(" a")]);
    assert!(lines.is_empty());
}

#[test]
fn a_trailing_blank_line_is_kept_as_a_marker() {
    let comments = [comment(0, " a")];
    let (popped, _, _) = comments_before(&comments, &[5], 20, true);
    assert_eq!(popped, vec![Some(" a"), None]);
}

#[test]
fn only_blank_lines_pop_to_nothing() {
    let (popped, rest, lines) = comments_before(&[], &[1, 2, 3], 2, true);
    assert!(popped.is_empty());
    assert!(rest.is_empty());
    assert_eq!(lines, &[3]);
}

#[test]
fn blank_lines_are_dropped_when_not_retained() {
    let comments = [comment(0, " a"), comment(10, " b")];
    let (popped, _, lines) = comments_before(&comments, &[5, 30], 20, false);
    assert_eq!(popped, vec![Some(" a"), Some(" b")]);
    assert_eq!(lines, &[30]);
}

#[test]
fn a_blank_line_at_the_offset_of_a_comment_comes_first() {
    let comments = [comment(0, " a"), comment(5, " b")];
    let (popped, _, _) = comments_before(&comments, &[5], 20, true);
    assert_eq!(popped, vec![Some(" a"), None, Some(" b")]);
}

#[test]
fn a_second_pop_with_the_same_limit_gives_nothing() {
    let extra = Intermediate {
        comments: vec![comment(0, " a"), comment(10, " b")],
        doc_comments: vec![],
        module_comments: vec![],
        empty_lines: &[],
    };
    let mut formatter = Formatter::with_comments(&extra);
    assert_eq!(formatter.pop_comments(10), vec![Some(" a"), Some(" b")]);
    assert!(formatter.pop_comments(10).is_empty());
    assert!(formatter.pop_comments(5).is_empty());
}

#[test]
fn pop_doc_comments_leaves_comments_alone() {
    let extra = Intermediate {
        comments: vec![comment(0, " a")],
        doc_comments: vec![comment(3, " d")],
        module_comments: vec![],
        empty_lines: &[1],
    };
    let mut formatter = Formatter::with_comments(&extra);
    assert_eq!(formatter.pop_doc_comments(10), vec![Some(" d")]);
    assert!(!formatter.pop_empty_lines(10));
    assert_eq!(formatter.pop_comments(10), vec![Some(" a")]);
}

#[test]
fn pop_empty_lines_says_whether_there_was_one() {
    let extra = Intermediate {
        comments: vec![],
        doc_comments: vec![],
        module_comments: vec![],
        empty_lines: &[3, 4, 9],
    };
    let mut formatter = Formatter::with_comments(&extra);
    assert!(!formatter.pop_empty_lines(2));
    assert!(formatter.pop_empty_lines(5));
    assert!(!formatter.pop_empty_lines(5));
    assert!(formatter.pop_empty_lines(u32::MAX));
    assert!(!formatter.pop_empty_lines(u32::MAX));
}

#[test]
fn any_comments_looks_at_the_next_comment_only() {
    let extra = Intermediate {
        comments: vec![comment(5, " a")],
        doc_comments: vec![],
        module_comments: vec![],
        empty_lines: &[],
    };
    let formatter = Formatter::with_comments(&extra);
    assert!(formatter.any_comments(6));
    assert!(!formatter.any_comments(5));
    assert!(!Formatter::new().any_comments(u32::MAX));
}

#[test]
fn a_new_formatter_has_no_trivia() {
    let mut formatter = Formatter::new();
    assert!(formatter.pop_comments(u32::MAX).is_empty());
    assert!(formatter.pop_doc_comments(u32::MAX).is_empty());
    assert!(!formatter.pop_empty_lines(u32::MAX));
}

#[test]
fn no_comments_print_nothing() {
    assert_eq!(shown(printed_comments(&vec![], true)), None);
    assert_eq!(shown(printed_comments(&vec![], false)), None);
}

#[test]
fn comments_are_joined_by_newlines() {
    let comments = vec![Some(" a"), Some(" b")];
    assert_eq!(shown(printed_comments(&comments, false)), Some("// a\n// b".to_string()));
    assert_eq!(shown(printed_comments(&comments, true)), Some("// a\n// b\n".to_string()));
}

#[test]
fn a_marker_between_comments_is_one_blank_line() {
    let comments = vec![Some(" a"), None, Some(" b")];
    assert_eq!(shown(printed_comments(&comments, false)), Some("// a\n\n// b".to_string()));
}

#[test]
fn several_markers_between_comments_are_one_blank_line() {
    let comments = vec![Some(" a"), None, None, None, Some(" b")];
    assert_eq!(shown(printed_comments(&comments, false)), Some("// a\n\n// b".to_string()));
}

#[test]
fn a_trailing_marker_is_kept_or_dropped_by_the_caller() {
    let comments = vec![Some(" a"), None];
    assert_eq!(shown(printed_comments(&comments, true)), Some("// a\n\n".to_string()));
    assert_eq!(shown(printed_comments(&comments, false)), Some("// a".to_string()));
}

#[test]
fn commented_puts_the_comments_above() {
    let doc = commented(gleam_format::pretty::text("x"), &vec![Some(" note")]);
    assert_eq!(render(&doc, 80), "// note\nx");
    let bare = commented(gleam_format::pretty::text("x"), &vec![]);
    assert_eq!(render(&bare, 80), "x");
}

#[test]
fn from_extra_cuts_the_comments_out_of_the_source() {
    let src = "// one\n/// two\n//// three\n\nx";
    let extra = ModuleExtra {
        comments: vec![SrcSpan { start: 2, end: 6 }],
        doc_comments: vec![SrcSpan { start: 10, end: 14 }],
        module_comments: vec![SrcSpan { start: 19, end: 25 }],
        empty_lines: vec![26],
    };
    assert!(extra.fits(src));
    let intermediate = Intermediate::from_extra(&extra, src);
    assert_eq!(intermediate.comments, vec![comment(2, " one")]);
    assert_eq!(intermediate.doc_comments, vec![comment(10, " two")]);
    assert_eq!(intermediate.module_comments, vec![comment(19, " three")]);
    assert_eq!(intermediate.empty_lines, &[26]);
}

#[test]
fn spans_outside_the_source_do_not_fit() {
    let src = "// é";
    let beyond = ModuleExtra {
        comments: vec![SrcSpan { start: 2, end: 9 }],
        doc_comments: vec![],
        module_comments: vec![],
        empty_lines: vec![],
    };
    assert!(!beyond.fits(src));
    let inside_a_character = ModuleExtra {
        comments: vec![SrcSpan { start: 2, end: 4 }],
        doc_comments: vec![],
        module_comments: vec![],
        empty_lines: vec![],
    };
    assert!(!inside_a_character.fits(src));
    let backwards = ModuleExtra {
        comments: vec![],
        doc_comments: vec![SrcSpan { start: 3, end: 2 }],
        module_comments: vec![],
        empty_lines: vec![],
    };
    assert!(!backwards.fits(src));
    let whole = ModuleExtra {
        comments: vec![SrcSpan { start: 2, end: 5 }],
        doc_comments: vec![],
        module_comments: vec![],
        empty_lines: vec![],
    };
    assert!(whole.fits(src));
    assert_eq!(Intermediate::from_extra(&whole, src).comments, vec![comment(2, " é")]);
}

#[test]
fn at_the_end_of_a_module_a_trailing_marker_is_a_blank_line() {
    let comments = vec![Some(" a"), None];
    assert_eq!(shown(printed_comments_at_end(&comments)), Some("// a\n\n".to_string()));
    let comments = vec![Some(" a"), None, Some(" b"), None];
    assert_eq!(shown(printed_comments_at_end(&comments)), Some("// a\n\n// b\n\n".to_string()));
}

#[test]
fn at_the_end_of_a_module_a_run_without_a_trailing_marker_is_as_elsewhere() {
    assert_eq!(shown(printed_comments_at_end(&vec![])), None);
    let comments = vec![Some(" a"), Some(" b")];
    assert_eq!(shown(printed_comments_at_end(&comments)), Some("// a\n// b".to_string()));
    let comments = vec![Some(" a"), None, Some(" b")];
    assert_eq!(shown(printed_comments_at_end(&comments)), Some("// a\n\n// b".to_string()));
    let comments = vec![Some(" a"), None, None];
    assert_eq!(shown(printed_comments_at_end(&comments)), Some("// a\n\n".to_string()));
}
