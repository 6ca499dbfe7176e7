use backtrace::Backtrace;
use c2rust_analyze::mir::Span;
use c2rust_analyze::panic_detail::{panic_to_string, relevant_loc, PanicDetail, PanicPayload, SymbolInfo};

#[test]
fn panic_to_string_of_messages() {
    assert_eq!(panic_to_string(&PanicPayload::Str("boom".to_string())), "boom");
    assert_eq!(panic_to_string(&PanicPayload::Owned("bad index".to_string())), "bad index");
    assert_eq!(
        panic_to_string(&PanicPayload::Other("TypeId(0x1)".to_string())),
        "unknown error: TypeId(0x1)"
    );
}

#[test]
fn panic_detail_new_is_bare() {
    let d = PanicDetail::new("  oops \n".to_string());
    assert!(!d.has_backtrace());
    assert_eq!(d.to_string_short(), "[unknown]: oops");
    assert_eq!(d.to_string_full(), "panic at [unknown]:   oops \n\n");
}

#[test]
fn panic_detail_prefers_relevant_location() {
    let mut d = PanicDetail::new("failed".to_string());
    d.loc = Some("src/a.rs:1:2".to_string());
    assert_eq!(d.to_string_short(), "src/a.rs:1:2: failed");
    d.relevant_loc = Some("f @ src/b.rs:3:4".to_string());
    assert_eq!(d.to_string_short(), "f @ src/b.rs:3:4: failed");
    d.span = Span { file: 2, lo: 10, hi: 15 };
    assert_eq!(
        d.to_string_full(),
        "panic at src/a.rs:1:2: failed\nrelated location: f @ src/b.rs:3:4\nsource location: 2:10..15\n"
    );
}

#[test]
fn relevant_location_skips_helpers() {
    let sym = |name: Option<&str>, file: Option<&str>, line: Option<u32>| SymbolInfo {
        name: name.map(|s| s.to_string()),
        filename: file.map(|s| s.to_string()),
        lineno: line,
        colno: None,
    };
    let syms = vec![
        sym(None, None, None),
        sym(Some("std::panicking::begin_panic"), Some("panicking.rs"), Some(5)),
        sym(Some("c2rust_analyze::rewrite::expr::visit"), Some("src/rewrite.rs"), Some(42)),
        sym(Some("c2rust_analyze::dataflow::run"), Some("src/dataflow.rs"), Some(7)),
    ];
    assert_eq!(relevant_loc(&syms), Some("c2rust_analyze::rewrite::expr::visit @ src/rewrite.rs:42:0".to_string()));
    let syms = vec![sym(Some("core::TypeOfThing::get"), None, None)];
    assert_eq!(relevant_loc(&syms), Some("core::TypeOfThing::get @ [unknown]:0:0".to_string()));
    assert_eq!(relevant_loc(&vec![sym(Some("main"), None, None)]), None);
}

#[test]
fn full_description_ends_with_backtrace() {
    let bt = Backtrace::new();
    let relevant = c2rust_analyze::panic_detail::guess_relevant_loc(&bt);
    let d = PanicDetail::with_parts(
        "bad".to_string(),
        Some("src/x.rs:1:1".to_string()),
        relevant.clone(),
        Some(bt),
        Span { file: 0, lo: 0, hi: 0 },
    );
    assert!(d.has_backtrace());
    let head = match relevant {
        Some(r) => format!("panic at src/x.rs:1:1: bad\nrelated location: {}\n", r),
        None => "panic at src/x.rs:1:1: bad\n".to_string(),
    };
    let full = d.to_string_full();
    assert!(full.starts_with(&head));
    assert!(full.len() > head.len());
}
