use c2rust_analyze::mir::{
    BasicBlockData, Body, Callee, LTy, Location, Operand, Place, PointerId, Rvalue, Span,
    Statement, StatementKind, Terminator, TerminatorKind, Ty, TyShape, NO_POINTER,
};
use c2rust_analyze::mir_op::SubLoc;
use c2rust_analyze::unlower::{hir_is_wf, unlower, HirBody, HirExpr, HirExprKind, MirOrigin, MirOriginDesc};

fn sp(lo: usize, hi: usize) -> Span {
    Span { file: 0, lo, hi }
}

fn lty() -> LTy {
    LTy { ty: Ty { shape: TyShape::Other, id: 1, pointee: 0 }, label: PointerId { index: NO_POINTER } }
}

fn place(projection_len: usize) -> Place {
    Place { local: 1, projection_len, indirect: false, lty: lty(), local_lty: lty(), local_addr: PointerId { index: NO_POINTER } }
}

fn assign_at(span: Span, projection_len: usize) -> Statement {
    Statement {
        kind: StatementKind::Assign {
            dest: place(projection_len),
            rvalue: Rvalue::Use(Operand::Constant(lty())),
            rvalue_lty: lty(),
            void_cast: false,
        },
        span,
    }
}

fn expr(hir_id: u64, span: Span, kind: HirExprKind) -> HirExpr {
    HirExpr { hir_id, span, kind }
}

fn origin(e: &HirExpr, desc: MirOriginDesc) -> MirOrigin {
    MirOrigin { hir_id: e.hir_id, span: e.span, desc }
}

fn loc(block: usize, statement_index: usize) -> Location {
    Location { block, statement_index }
}

#[test]
fn temporary_store_records_whole_expression() {
    let body = Body {
        basic_blocks: vec![BasicBlockData {
            statements: vec![
                Statement { kind: StatementKind::StorageLive, span: sp(4, 9) },
                assign_at(sp(4, 9), 0),
            ],
            terminator: Some(Terminator { kind: TerminatorKind::Return, span: sp(0, 20) }),
        }],
    };
    let hir = HirBody { exprs: vec![expr(7, sp(4, 9), HirExprKind::Other)] };
    let u = unlower(&body, &hir);
    assert!(u.conflicts.is_empty());
    assert!(u.mismatched.is_empty());
    let e = &hir.exprs[0];
    assert_eq!(u.map.get(loc(0, 1), &vec![]), Some(origin(e, MirOriginDesc::StoreIntoLocal)));
    assert_eq!(u.map.get(loc(0, 1), &vec![SubLoc::AssignRvalue]), Some(origin(e, MirOriginDesc::Expr)));
    assert_eq!(u.map.get(loc(0, 0), &vec![]), None);
    assert_eq!(u.map.entries().len(), 2);
}

#[test]
fn assignment_records_both_sides() {
    let body = Body {
        basic_blocks: vec![BasicBlockData { statements: vec![assign_at(sp(0, 5), 1)], terminator: None }],
    };
    let hir = HirBody {
        exprs: vec![
            expr(1, sp(0, 5), HirExprKind::Assign(1, 2)),
            expr(2, sp(0, 1), HirExprKind::Other),
            expr(3, sp(4, 5), HirExprKind::Other),
        ],
    };
    let u = unlower(&body, &hir);
    assert!(u.conflicts.is_empty());
    assert_eq!(u.map.get(loc(0, 0), &vec![]), Some(origin(&hir.exprs[0], MirOriginDesc::Expr)));
    assert_eq!(u.map.get(loc(0, 0), &vec![SubLoc::Dest]), Some(origin(&hir.exprs[1], MirOriginDesc::Expr)));
    assert_eq!(
        u.map.get(loc(0, 0), &vec![SubLoc::AssignRvalue]),
        Some(origin(&hir.exprs[2], MirOriginDesc::Expr))
    );
    assert_eq!(u.map.entries().len(), 3);
}

#[test]
fn assignment_with_two_instructions_is_skipped() {
    let body = Body {
        basic_blocks: vec![BasicBlockData {
            statements: vec![assign_at(sp(0, 5), 0), assign_at(sp(0, 5), 0)],
            terminator: None,
        }],
    };
    let hir = HirBody {
        exprs: vec![
            expr(1, sp(0, 5), HirExprKind::Assign(1, 1)),
            expr(2, sp(0, 1), HirExprKind::Other),
        ],
    };
    let u = unlower(&body, &hir);
    assert_eq!(u.map.entries().len(), 0);
    assert!(u.conflicts.is_empty());
    // Expression 1 has no instruction of its own, so it is no mismatch.
    assert_eq!(u.mismatched, vec![0]);
}

#[test]
fn projected_destination_is_skipped() {
    let body = Body {
        basic_blocks: vec![BasicBlockData { statements: vec![assign_at(sp(2, 3), 1)], terminator: None }],
    };
    let hir = HirBody { exprs: vec![expr(1, sp(2, 3), HirExprKind::Other)] };
    let u = unlower(&body, &hir);
    assert_eq!(u.map.entries().len(), 0);
    assert_eq!(u.mismatched, vec![0]);
}

#[test]
fn call_records_result_and_arguments() {
    let call = TerminatorKind::Call {
        callee: Callee::Other,
        args: vec![Operand::Constant(lty()), Operand::Move(place(0))],
        destination: place(0),
    };
    let body = Body {
        basic_blocks: vec![BasicBlockData {
            statements: vec![assign_at(sp(5, 6), 0)],
            terminator: Some(Terminator { kind: call, span: sp(0, 10) }),
        }],
    };
    let hir = HirBody {
        exprs: vec![
            expr(1, sp(0, 10), HirExprKind::Call(vec![1, 2])),
            expr(2, sp(2, 3), HirExprKind::Other),
            expr(3, sp(5, 6), HirExprKind::Other),
        ],
    };
    let u = unlower(&body, &hir);
    assert!(u.conflicts.is_empty());
    let call_loc = loc(0, 1);
    assert_eq!(u.map.get(call_loc, &vec![]), Some(origin(&hir.exprs[0], MirOriginDesc::StoreIntoLocal)));
    assert_eq!(u.map.get(call_loc, &vec![SubLoc::AssignRvalue]), Some(origin(&hir.exprs[0], MirOriginDesc::Expr)));
    assert_eq!(
        u.map.get(call_loc, &vec![SubLoc::AssignRvalue, SubLoc::CallArg(0)]),
        Some(origin(&hir.exprs[1], MirOriginDesc::Expr))
    );
    assert_eq!(
        u.map.get(call_loc, &vec![SubLoc::AssignRvalue, SubLoc::CallArg(1)]),
        Some(origin(&hir.exprs[2], MirOriginDesc::Expr))
    );
    assert_eq!(u.map.get(loc(0, 0), &vec![]), Some(origin(&hir.exprs[2], MirOriginDesc::StoreIntoLocal)));
    assert_eq!(u.map.entries().len(), 6);
}

#[test]
fn duplicated_span_conflicts_keep_first() {
    let body = Body {
        basic_blocks: vec![BasicBlockData { statements: vec![assign_at(sp(1, 4), 0)], terminator: None }],
    };
    let hir = HirBody {
        exprs: vec![expr(1, sp(1, 4), HirExprKind::Other), expr(2, sp(1, 4), HirExprKind::Other)],
    };
    let u = unlower(&body, &hir);
    assert_eq!(u.conflicts.len(), 2);
    assert_eq!(u.conflicts[0].kept, origin(&hir.exprs[0], MirOriginDesc::StoreIntoLocal));
    assert_eq!(u.conflicts[0].rejected, origin(&hir.exprs[1], MirOriginDesc::StoreIntoLocal));
    assert_eq!(u.conflicts[1].sub_loc, vec![SubLoc::AssignRvalue]);
    assert_eq!(u.map.get(loc(0, 0), &vec![]), Some(origin(&hir.exprs[0], MirOriginDesc::StoreIntoLocal)));
}

#[test]
fn distinct_spans_give_no_conflicts() {
    let body = Body {
        basic_blocks: vec![BasicBlockData {
            statements: vec![assign_at(sp(0, 3), 0), assign_at(sp(4, 7), 0), assign_at(sp(0, 7), 0)],
            terminator: None,
        }],
    };
    let hir = HirBody {
        exprs: vec![
            expr(1, sp(0, 7), HirExprKind::Other),
            expr(2, sp(0, 3), HirExprKind::Other),
            expr(3, sp(4, 7), HirExprKind::Other),
        ],
    };
    let u = unlower(&body, &hir);
    assert!(u.conflicts.is_empty());
    assert_eq!(u.map.entries().len(), 6);
    assert_eq!(u.map.get(loc(0, 2), &vec![]), Some(origin(&hir.exprs[0], MirOriginDesc::StoreIntoLocal)));
    assert_eq!(u.map.get(loc(0, 0), &vec![SubLoc::AssignRvalue]), Some(origin(&hir.exprs[1], MirOriginDesc::Expr)));
}

#[test]
fn earlier_instructions_are_auxiliary() {
    let body = Body {
        basic_blocks: vec![BasicBlockData {
            statements: vec![assign_at(sp(0, 6), 0), assign_at(sp(0, 6), 0), assign_at(sp(0, 6), 0)],
            terminator: None,
        }],
    };
    let hir = HirBody { exprs: vec![expr(1, sp(0, 6), HirExprKind::Other)] };
    let u = unlower(&body, &hir);
    assert_eq!(u.auxiliary, vec![(0, vec![loc(0, 0), loc(0, 1)])]);
    assert_eq!(u.map.get(loc(0, 2), &vec![]), Some(origin(&hir.exprs[0], MirOriginDesc::StoreIntoLocal)));
}

#[test]
fn hir_validity_checked() {
    let good = HirBody {
        exprs: vec![expr(1, sp(0, 5), HirExprKind::Call(vec![1])), expr(2, sp(2, 3), HirExprKind::Other)],
    };
    assert!(hir_is_wf(&good));
    let bad = HirBody { exprs: vec![expr(1, sp(0, 5), HirExprKind::MethodCall(vec![0, 4]))] };
    assert!(!hir_is_wf(&bad));
    let bad = HirBody { exprs: vec![expr(1, sp(0, 5), HirExprKind::Assign(0, 1))] };
    assert!(!hir_is_wf(&bad));
}
