use c2rust_analyze::apply::{apply_rewrites, apply_to_file, omit_filecheck_directive, render_rewrites, ApplyError};
use c2rust_analyze::rewrite::Rewrite;
use c2rust_analyze::Mutability;
use c2rust_analyze::mir::Span;

fn edit(file: usize, lo: usize, hi: usize, text: &str) -> (Span, String) {
    (Span { file, lo, hi }, text.to_string())
}

#[test]
fn edits_applied_in_span_order() {
    let text = "let p = q.offset(1);".to_string();
    let edits = vec![edit(0, 8, 19, "&q[1 ..]"), edit(0, 4, 5, "r")];
    assert_eq!(apply_to_file(&text, &edits, 0).unwrap(), "let r = &q[1 ..];");
}

#[test]
fn identity_edits_give_back_the_text() {
    let text = "fn f(x: *mut i32) {}".to_string();
    let edits = vec![edit(0, 8, 16, "*mut i32"), edit(0, 0, 2, "fn"), edit(0, 20, 20, "")];
    assert_eq!(apply_to_file(&text, &edits, 0).unwrap(), text);
}

#[test]
fn no_edits_leave_the_text() {
    let text = "abc".to_string();
    assert_eq!(apply_to_file(&text, &vec![], 0).unwrap(), "abc");
}

#[test]
fn insertion_at_a_point() {
    let text = "x + y".to_string();
    let edits = vec![edit(0, 0, 0, "&"), edit(0, 5, 5, " as usize")];
    assert_eq!(apply_to_file(&text, &edits, 0).unwrap(), "&x + y as usize");
}

#[test]
fn overlapping_edits_rejected() {
    let text = "abcdefgh".to_string();
    let edits = vec![edit(0, 2, 6, "X"), edit(0, 4, 7, "Y")];
    assert_eq!(apply_to_file(&text, &edits, 0), Err(ApplyError::Overlap(0, 1)));
}

#[test]
fn out_of_bounds_edit_rejected() {
    let text = "abc".to_string();
    assert_eq!(apply_to_file(&text, &vec![edit(0, 1, 4, "X")], 0), Err(ApplyError::OutOfBounds(0)));
    assert_eq!(apply_to_file(&text, &vec![edit(0, 2, 1, "X")], 0), Err(ApplyError::OutOfBounds(0)));
}

#[test]
fn edits_go_to_their_own_files() {
    let files = vec!["aaa".to_string(), "bbb".to_string()];
    let edits = vec![edit(1, 0, 1, "B"), edit(0, 2, 3, "A"), edit(5, 0, 1, "ignored")];
    assert_eq!(apply_rewrites(&files, &edits).unwrap(), vec!["aaA".to_string(), "Bbb".to_string()]);
    let edits = vec![edit(1, 0, 9, "B")];
    assert_eq!(apply_rewrites(&files, &edits), Err(ApplyError::OutOfBounds(0)));
}

#[test]
fn render_rewrites_take_source_text() {
    let files = vec!["let r = p.offset(n);".to_string()];
    let whole = Span { file: 0, lo: 8, hi: 19 };
    let rw = Rewrite::Ref(
        Box::new(Rewrite::SliceTail(
            Box::new(Rewrite::Sub(0, Span { file: 0, lo: 8, hi: 9 })),
            Box::new(Rewrite::Sub(1, Span { file: 0, lo: 17, hi: 18 })),
        )),
        Mutability::Not,
    );
    let edits = render_rewrites(&files, &vec![(whole, rw)]).unwrap();
    assert_eq!(edits, vec![(whole, "&p[n ..]".to_string())]);
    assert_eq!(apply_rewrites(&files, &edits).unwrap(), vec!["let r = &p[n ..];".to_string()]);
}

#[test]
fn identity_rewrites_round_trip() {
    let files = vec!["a = b + c;".to_string()];
    let rewrites = vec![
        (Span { file: 0, lo: 4, hi: 9 }, Rewrite::Identity),
        (Span { file: 0, lo: 0, hi: 1 }, Rewrite::Identity),
    ];
    let edits = render_rewrites(&files, &rewrites).unwrap();
    assert_eq!(apply_rewrites(&files, &edits).unwrap(), files);
}

#[test]
fn render_rejects_spans_outside_the_file() {
    let files = vec!["abc".to_string()];
    let rewrites = vec![
        (Span { file: 0, lo: 0, hi: 1 }, Rewrite::LitZero),
        (Span { file: 0, lo: 0, hi: 1 }, Rewrite::Deref(Box::new(Rewrite::Sub(0, Span { file: 0, lo: 2, hi: 7 })))),
    ];
    assert_eq!(render_rewrites(&files, &rewrites), Err(ApplyError::BadSpan(1)));
    let rewrites = vec![(Span { file: 3, lo: 0, hi: 1 }, Rewrite::Identity)];
    assert_eq!(render_rewrites(&files, &rewrites), Err(ApplyError::BadSpan(0)));
}

#[test]
fn filecheck_directive_omitted() {
    assert_eq!(omit_filecheck_directive("let x = 1; // CHECK: foo"), "let x = 1; // (FileCheck directive omitted)");
    assert_eq!(omit_filecheck_directive("// CHECK-LABEL: a // CHECK"), "// (FileCheck directive omitted)");
    assert_eq!(omit_filecheck_directive("let y = 2; // check"), "let y = 2; // check");
}
