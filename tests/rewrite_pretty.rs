use c2rust_analyze::mir::Span;
use c2rust_analyze::rewrite::Rewrite;
use c2rust_analyze::Mutability;

fn identity() -> Box<Rewrite> {
    Box::new(Rewrite::Identity)
}

fn ref_(rw: Box<Rewrite>) -> Box<Rewrite> {
    Box::new(Rewrite::Ref(rw, Mutability::Not))
}

fn index(arr: Box<Rewrite>, idx: Box<Rewrite>) -> Box<Rewrite> {
    Box::new(Rewrite::Index(arr, idx))
}

fn cast_usize(rw: Box<Rewrite>) -> Box<Rewrite> {
    Box::new(Rewrite::CastUsize(rw))
}

/// Test precedence handling in `Rewrite::pretty`
#[test]
fn rewrite_pretty_precedence() {
    // Ref vs Index
    assert_eq!(ref_(index(identity(), identity())).to_string(), "&$e[$e]",);

    assert_eq!(
        index(ref_(identity()), ref_(identity())).to_string(),
        "(&$e)[&$e]",
    );

    // Ref vs CastUsize
    assert_eq!(cast_usize(ref_(identity())).to_string(), "&$e as usize",);

    assert_eq!(ref_(cast_usize(identity())).to_string(), "&($e as usize)",);

    // CastUsize vs Index
    assert_eq!(
        cast_usize(index(identity(), identity())).to_string(),
        "$e[$e] as usize",
    );

    assert_eq!(
        index(cast_usize(identity()), cast_usize(identity())).to_string(),
        "($e as usize)[$e as usize]",
    );

    // Index vs Index
    assert_eq!(
        index(index(identity(), identity()), identity()).to_string(),
        "$e[$e][$e]",
    );
}

#[test]
fn pretty_deref_and_slice_tail() {
    let rw = Rewrite::SliceTail(
        Box::new(Rewrite::Deref(identity())),
        Box::new(Rewrite::CastUsize(identity())),
    );
    assert_eq!(rw.to_string(), "(*$e)[($e as usize) ..]");
    let rw = Rewrite::Deref(index(identity(), Box::new(Rewrite::LitZero)));
    assert_eq!(rw.to_string(), "*$e[0]");
}

#[test]
fn pretty_addr_of_ignores_context() {
    let rw = Rewrite::CastUsize(Box::new(Rewrite::AddrOf(
        Box::new(Rewrite::Index(identity(), identity())),
        Mutability::Mut,
    )));
    assert_eq!(rw.to_string(), "core::ptr::addr_of_mut!($e[$e]) as usize");
    let rw = Rewrite::AddrOf(cast_usize(identity()), Mutability::Not);
    assert_eq!(rw.to_string(), "core::ptr::addr_of!($e as usize)");
}

#[test]
fn pretty_mut_ref_and_sub() {
    let sp = Span { file: 0, lo: 3, hi: 9 };
    let rw = Rewrite::Ref(Box::new(Rewrite::Sub(12, sp)), Mutability::Mut);
    assert_eq!(rw.to_string(), "&mut $12");
    assert_eq!(Rewrite::Sub(0, sp).to_string(), "$0");
}

#[test]
fn pretty_type_builders() {
    let rw = Rewrite::TyRef(
        Box::new(Rewrite::TySlice(Box::new(Rewrite::PrintTy("u8".to_string())))),
        Mutability::Mut,
    );
    assert_eq!(rw.to_string(), "&mut [u8]");
    let rw = Rewrite::TyPtr(Box::new(Rewrite::PrintTy("i32".to_string())), Mutability::Not);
    assert_eq!(rw.to_string(), "*const i32");
    let rw = Rewrite::TyCtor(
        "Cell".to_string(),
        vec![Rewrite::PrintTy("i32".to_string())],
    );
    assert_eq!(rw.to_string(), "Cell<i32>");
}

#[test]
fn pretty_appends_to_existing_text() {
    let mut out = String::from("let x = ");
    Rewrite::Deref(identity()).pretty(&mut out, 3);
    assert_eq!(out, "let x = (*$e)");
}

#[test]
fn pretty_type_arguments_are_separated() {
    let rw = Rewrite::TyCtor(
        "HashMap".to_string(),
        vec![
            Rewrite::PrintTy("u32".to_string()),
            Rewrite::TyRef(Box::new(Rewrite::PrintTy("str".to_string())), Mutability::Not),
            Rewrite::TySlice(identity()),
        ],
    );
    assert_eq!(rw.to_string(), "HashMap<u32, &str, [$e]>");
    let copy = rw.clone();
    assert_eq!(copy, rw);
    assert_eq!(copy.to_string(), "HashMap<u32, &str, [$e]>");
    assert_eq!(Rewrite::TyCtor("Unit".to_string(), vec![]).to_string(), "Unit<>");
}
