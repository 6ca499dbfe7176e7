use c2rust_analyze::mir::{
    BasicBlockData, Body, Callee, LTy, Location, Operand, Place, PointerId, Rvalue, Span,
    Statement, StatementKind, Terminator, TerminatorKind, Ty, TyShape, NO_POINTER,
};
use c2rust_analyze::mir_op::{gen_mir_rewrites, MirRewrite, RewriteError, RewriteKind, SubLoc};
use c2rust_analyze::type_desc::{
    perms_to_desc, Assignment, FlagSet, Ownership, PermissionSet, Quantity, CELL, OFFSET_ADD, OFFSET_SUB, READ,
    UNIQUE, WRITE,
};
use c2rust_analyze::Mutability;

const SP: Span = Span { file: 0, lo: 1, hi: 2 };

fn raw_ptr(label: u32) -> LTy {
    LTy {
        ty: Ty { shape: TyShape::RawPtr(Mutability::Mut), id: 100, pointee: 7 },
        label: PointerId { index: label },
    }
}

fn plain() -> LTy {
    LTy { ty: Ty { shape: TyShape::Other, id: 7, pointee: 0 }, label: PointerId { index: NO_POINTER } }
}

fn place(lty: LTy) -> Place {
    Place {
        local: 1,
        projection_len: 0,
        indirect: false,
        lty,
        local_lty: lty,
        local_addr: PointerId { index: NO_POINTER },
    }
}

fn deref_place(ptr: LTy) -> Place {
    Place { local: 2, projection_len: 1, indirect: true, lty: plain(), local_lty: ptr, local_addr: PointerId { index: NO_POINTER } }
}

fn facts(perms: &[u16], flags: &[u16]) -> Assignment {
    Assignment {
        perms: perms.iter().map(|&bits| PermissionSet { bits }).collect(),
        flags: flags.iter().map(|&bits| FlagSet { bits }).collect(),
    }
}

fn assign(dest: Place, rvalue: Rvalue, rvalue_lty: LTy) -> Statement {
    Statement { kind: StatementKind::Assign { dest, rvalue, rvalue_lty, void_cast: false }, span: SP }
}

fn one_block(statements: Vec<Statement>, terminator: Option<TerminatorKind>) -> Body {
    Body {
        basic_blocks: vec![BasicBlockData {
            statements,
            terminator: terminator.map(|kind| Terminator { kind, span: SP }),
        }],
    }
}

fn rw(kind: RewriteKind, sub_loc: Vec<SubLoc>) -> MirRewrite {
    MirRewrite { kind, sub_loc }
}

fn loc(block: usize, statement_index: usize) -> Location {
    Location { block, statement_index }
}

#[test]
fn perms_to_desc_picks_ownership_and_quantity() {
    let ptr = raw_ptr(0).ty;
    let d = perms_to_desc(ptr, PermissionSet { bits: READ | WRITE | UNIQUE }, FlagSet { bits: 0 });
    assert_eq!((d.own, d.qty, d.pointee_ty), (Ownership::Mut, Quantity::Single, 7));
    let d = perms_to_desc(ptr, PermissionSet { bits: READ | WRITE | UNIQUE | OFFSET_ADD }, FlagSet { bits: CELL });
    assert_eq!((d.own, d.qty), (Ownership::Cell, Quantity::Slice));
    let d = perms_to_desc(ptr, PermissionSet { bits: READ | OFFSET_ADD | OFFSET_SUB }, FlagSet { bits: 0 });
    assert_eq!((d.own, d.qty), (Ownership::Imm, Quantity::OffsetPtr));
    let d = perms_to_desc(plain().ty, PermissionSet { bits: READ | WRITE | UNIQUE }, FlagSet { bits: 0 });
    assert_eq!((d.own, d.pointee_ty), (Ownership::Raw, 7));
}

#[test]
fn same_desc_cast_emits_nothing() {
    let asn = facts(&[READ | WRITE | UNIQUE, READ | WRITE | UNIQUE], &[]);
    let body = one_block(
        vec![assign(place(raw_ptr(1)), Rvalue::Use(Operand::Copy(place(raw_ptr(0)))), raw_ptr(0))],
        None,
    );
    let m = gen_mir_rewrites(&asn, &body).unwrap();
    assert!(m.rewrites.is_empty());
    assert!(m.unsupported_casts.is_empty());
}

#[test]
fn mut_to_imm_narrowing() {
    let asn = facts(&[READ | WRITE | UNIQUE, READ], &[]);
    let body = one_block(
        vec![assign(place(raw_ptr(1)), Rvalue::Use(Operand::Copy(place(raw_ptr(0)))), raw_ptr(0))],
        None,
    );
    let m = gen_mir_rewrites(&asn, &body).unwrap();
    assert_eq!(m.rewrites, vec![(loc(0, 0), vec![rw(RewriteKind::MutToImm, vec![])])]);
}

#[test]
fn unsupported_cast_is_a_diagnostic() {
    // A slice cannot become a single reference by a cast.
    let asn = facts(&[READ | OFFSET_ADD, READ], &[]);
    let body = one_block(
        vec![assign(place(raw_ptr(1)), Rvalue::Use(Operand::Copy(place(raw_ptr(0)))), raw_ptr(0))],
        None,
    );
    let m = gen_mir_rewrites(&asn, &body).unwrap();
    assert!(m.rewrites.is_empty());
    assert_eq!(m.unsupported_casts.len(), 1);
    assert_eq!(m.unsupported_casts[0].loc, loc(0, 0));
    assert_eq!(m.unsupported_casts[0].from.qty, Quantity::Slice);
    assert_eq!(m.unsupported_casts[0].to.qty, Quantity::Single);
}

#[test]
fn offset_call_widens_single_result() {
    let asn = facts(&[READ | OFFSET_ADD, READ], &[]);
    let call = TerminatorKind::Call {
        callee: Callee::PtrOffset,
        args: vec![Operand::Copy(place(raw_ptr(0))), Operand::Constant(plain())],
        destination: place(raw_ptr(1)),
    };
    let body = one_block(vec![], Some(call));
    let m = gen_mir_rewrites(&asn, &body).unwrap();
    assert_eq!(
        m.rewrites,
        vec![(
            loc(0, 0),
            vec![
                rw(RewriteKind::OffsetSlice { mutbl: false }, vec![]),
                rw(RewriteKind::SliceFirst { mutbl: false }, vec![]),
            ]
        )]
    );
}

#[test]
fn offset_call_with_slice_result_and_narrowed_argument() {
    // The argument is a mutable slice and the result an immutable one.
    let asn = facts(&[READ | WRITE | UNIQUE | OFFSET_ADD, READ | OFFSET_ADD], &[]);
    let call = TerminatorKind::Call {
        callee: Callee::PtrOffset,
        args: vec![Operand::Move(place(raw_ptr(0)))],
        destination: place(raw_ptr(1)),
    };
    let body = one_block(vec![], Some(call));
    let m = gen_mir_rewrites(&asn, &body).unwrap();
    assert_eq!(
        m.rewrites,
        vec![(
            loc(0, 0),
            vec![
                rw(RewriteKind::MutToImm, vec![SubLoc::CallArg(0)]),
                rw(RewriteKind::OffsetSlice { mutbl: false }, vec![]),
            ]
        )]
    );
}

#[test]
fn redundant_as_ptr_removed() {
    let asn = facts(&[READ | OFFSET_ADD, READ | OFFSET_ADD], &[]);
    let call = TerminatorKind::Call {
        callee: Callee::SliceAsPtr,
        args: vec![Operand::Copy(place(raw_ptr(0)))],
        destination: place(raw_ptr(1)),
    };
    let body = one_block(vec![], Some(call));
    let m = gen_mir_rewrites(&asn, &body).unwrap();
    assert_eq!(m.rewrites, vec![(loc(0, 0), vec![rw(RewriteKind::RemoveAsPtr, vec![])])]);
}

#[test]
fn as_ptr_kept_when_quantities_differ() {
    let asn = facts(&[READ | OFFSET_ADD, READ], &[]);
    let call = TerminatorKind::Call {
        callee: Callee::SliceAsPtr,
        args: vec![Operand::Copy(place(raw_ptr(0)))],
        destination: place(raw_ptr(1)),
    };
    let body = one_block(vec![], Some(call));
    let m = gen_mir_rewrites(&asn, &body).unwrap();
    assert!(m.rewrites.is_empty());
}

#[test]
fn cell_set_get_and_new() {
    let asn = facts(&[], &[CELL, 0, CELL]);
    // `*p = 1` where `p` is a cell pointer.
    let set = assign(deref_place(raw_ptr(0)), Rvalue::Use(Operand::Constant(plain())), plain());
    // `x = *p` where `p` is a cell pointer.
    let get = assign(place(plain()), Rvalue::Use(Operand::Copy(deref_place(raw_ptr(0)))), plain());
    // `y = 2` where `y` is a cell local.
    let mut cell_local = place(plain());
    cell_local.local_addr = PointerId { index: 2 };
    let new = assign(cell_local, Rvalue::Use(Operand::Constant(plain())), plain());
    let body = one_block(vec![set, get, new], Some(TerminatorKind::Return));
    let m = gen_mir_rewrites(&asn, &body).unwrap();
    let inner = vec![SubLoc::AssignRvalue, SubLoc::RvalueOperand(0)];
    assert_eq!(
        m.rewrites,
        vec![
            (loc(0, 0), vec![rw(RewriteKind::CellSet, vec![SubLoc::AssignRvalue])]),
            (loc(0, 1), vec![rw(RewriteKind::CellGet, inner.clone())]),
            (loc(0, 2), vec![rw(RewriteKind::CellNew, inner)]),
        ]
    );
}

#[test]
fn address_of_becomes_reference() {
    let asn = facts(&[READ | WRITE | UNIQUE, READ | WRITE | UNIQUE], &[0, CELL]);
    let mutable = assign(place(raw_ptr(0)), Rvalue::AddressOf(Mutability::Mut, place(plain())), raw_ptr(0));
    let of_cell = assign(place(raw_ptr(1)), Rvalue::AddressOf(Mutability::Mut, place(plain())), raw_ptr(1));
    let body = one_block(vec![mutable, of_cell], None);
    let m = gen_mir_rewrites(&asn, &body).unwrap();
    let inner = vec![SubLoc::AssignRvalue, SubLoc::RvalueOperand(0)];
    assert_eq!(
        m.rewrites,
        vec![
            (loc(0, 0), vec![rw(RewriteKind::RawToRef { mutbl: true }, inner.clone())]),
            (loc(0, 1), vec![rw(RewriteKind::RawToRef { mutbl: false }, inner)]),
        ]
    );
}

#[test]
fn void_cast_is_skipped() {
    let asn = facts(&[READ | WRITE | UNIQUE, READ], &[]);
    let stmt = Statement {
        kind: StatementKind::Assign {
            dest: place(raw_ptr(1)),
            rvalue: Rvalue::Cast(Operand::Copy(place(raw_ptr(0)))),
            rvalue_lty: raw_ptr(0),
            void_cast: true,
        },
        span: SP,
    };
    let m = gen_mir_rewrites(&asn, &one_block(vec![stmt], None)).unwrap();
    assert!(m.rewrites.is_empty());
}

#[test]
fn unsupported_instructions_fail() {
    let asn = facts(&[], &[]);
    let body = one_block(
        vec![
            Statement { kind: StatementKind::Nop, span: SP },
            Statement { kind: StatementKind::SetDiscriminant, span: SP },
        ],
        None,
    );
    assert_eq!(gen_mir_rewrites(&asn, &body).err(), Some(RewriteError::UnsupportedStatement(loc(0, 1))));
    let body = Body {
        basic_blocks: vec![
            BasicBlockData { statements: vec![], terminator: Some(Terminator { kind: TerminatorKind::Goto, span: SP }) },
            BasicBlockData { statements: vec![], terminator: Some(Terminator { kind: TerminatorKind::InlineAsm, span: SP }) },
        ],
    };
    assert_eq!(gen_mir_rewrites(&asn, &body).err(), Some(RewriteError::UnsupportedTerminator(loc(1, 0))));
}

#[test]
fn unlabelled_pointer_passes_through() {
    // A raw pointer without a label has no facts, so assigning it to a `&mut` is a cast
    // from `Raw` that no rewrite expresses.
    let asn = facts(&[READ | WRITE | UNIQUE], &[]);
    let unlabelled = LTy { label: PointerId { index: NO_POINTER }, ..raw_ptr(0) };
    let body = one_block(
        vec![assign(place(raw_ptr(0)), Rvalue::Use(Operand::Constant(unlabelled)), unlabelled)],
        None,
    );
    let m = gen_mir_rewrites(&asn, &body).unwrap();
    assert!(m.rewrites.is_empty());
    assert_eq!(m.unsupported_casts.len(), 1);
    assert_eq!(m.unsupported_casts[0].from.own, Ownership::Raw);
    assert_eq!(m.unsupported_casts[0].to.own, Ownership::Mut);
}
