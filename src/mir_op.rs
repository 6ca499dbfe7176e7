//! Annotation of IR-L instructions with the abstract rewrites that the inferred pointer facts
//! call for.
//!
//! Each rewrite is tagged with a sub-location path: the walk from the instruction down to the
//! sub-expression it applies to.
use vstd::prelude::*;

use crate::mir::{
    Body, Callee, LTy, Location, Operand, Place, Rvalue, Statement, StatementKind, Terminator,
    TerminatorKind, loc_lt, spec_stmt_at, spec_term_at,
};
use crate::span_index::block_len;
use crate::type_desc::{
    Assignment, Ownership, Quantity, TypeDesc, CELL, bits_contain, flags_of, local_perms_to_desc,
    lty_desc, perms_of, spec_local_perms_to_desc, spec_lty_desc,
};
use crate::Mutability;

verus! {

/// One step of a walk from an instruction down to one of its parts.
#[derive(Clone, Copy, PartialEq, Eq, Debug, Structural)]
pub enum SubLoc {
    /// The destination of an assignment or call.
    Dest,
    /// The right-hand side of an assignment.
    AssignRvalue,
    /// The Nth argument of a call.
    CallArg(usize),
    /// The Nth operand of an rvalue.
    RvalueOperand(usize),
    /// The Nth place of an rvalue, as in `&place`.
    RvaluePlace(usize),
    /// The place an operand reads.
    OperandPlace,
    /// The pointer used in the Nth innermost deref within a place.
    PlacePointer(usize),
}

#[derive(Clone, Copy, PartialEq, Eq, Debug, Structural)]
pub enum RewriteKind {
    /// Replace `ptr.offset(i)` with something like `&ptr[i..]`.
    OffsetSlice { mutbl: bool },
    /// Replace `slice` with `&slice[0]`.
    SliceFirst { mutbl: bool },
    /// Replace `ptr` with `&*ptr`, converting `&mut T` to `&T`.
    MutToImm,
    /// Remove a call to `as_ptr` or `as_mut_ptr`.
    RemoveAsPtr,
    /// Replace `&raw` with `&`, or `&raw mut` with `&mut`.
    RawToRef { mutbl: bool },
    /// Replace `y` in `let x = y` with `Cell::new(y)`.
    CellNew,
    /// Replace `*y` with `Cell::get(y)` where `y` is a pointer.
    CellGet,
    /// Replace `*y = x` with `Cell::set(y, x)` where `y` is a pointer.
    CellSet,
}

/// A rewrite of the part of an instruction that `sub_loc` leads to.
#[derive(Clone, PartialEq, Eq, Debug)]
pub struct MirRewrite {
    pub kind: RewriteKind,
    pub sub_loc: Vec<SubLoc>,
}

impl View for MirRewrite {
    type V = (RewriteKind, Seq<SubLoc>);

    open spec fn view(&self) -> (RewriteKind, Seq<SubLoc>) {
        (self.kind, self.sub_loc@)
    }
}

pub open spec fn rewrites_view(v: Seq<MirRewrite>) -> Seq<(RewriteKind, Seq<SubLoc>)> {
    v.map_values(|r: MirRewrite| r@)
}

/// A cast between two descriptors that no rewrite can express; the rewrite is dropped.
#[derive(Clone, Copy, PartialEq, Eq, Debug, Structural)]
pub struct CastDiag {
    pub loc: Location,
    pub from: TypeDesc,
    pub to: TypeDesc,
}

/// An instruction that annotation cannot handle at all.
#[derive(Clone, Copy, PartialEq, Eq, Debug, Structural)]
pub enum RewriteError {
    UnsupportedStatement(Location),
    UnsupportedTerminator(Location),
}

pub open spec fn one(kind: RewriteKind, path: Seq<SubLoc>) -> Seq<(RewriteKind, Seq<SubLoc>)> {
    seq![(kind, path)]
}

/// A cast is unsupported when the descriptors differ other than by `&mut` to `&` narrowing.
pub open spec fn is_unsupported_cast(from: TypeDesc, to: TypeDesc) -> bool {
    from != to && !(from.pointee_ty == to.pointee_ty && from.qty == to.qty && from.own
        == Ownership::Mut && to.own == Ownership::Imm)
}

pub open spec fn cast_desc_desc_rewrites(from: TypeDesc, to: TypeDesc, path: Seq<SubLoc>) -> Seq<
    (RewriteKind, Seq<SubLoc>),
> {
    if from != to && from.pointee_ty == to.pointee_ty && from.qty == to.qty && from.own
        == Ownership::Mut && to.own == Ownership::Imm {
        one(RewriteKind::MutToImm, path)
    } else {
        seq![]
    }
}

pub open spec fn cast_lty_lty_rewrites(
    asn: &Assignment,
    from: LTy,
    to: LTy,
    path: Seq<SubLoc>,
) -> Seq<(RewriteKind, Seq<SubLoc>)> {
    if from.label.spec_is_none() && to.label.spec_is_none() {
        seq![]
    } else if !from.ty.spec_is_raw_ptr() && !to.ty.spec_is_raw_ptr() {
        seq![]
    } else {
        cast_desc_desc_rewrites(spec_lty_desc(asn, from), spec_lty_desc(asn, to), path)
    }
}

pub open spec fn operand_rewrites(
    asn: &Assignment,
    op: Operand,
    expect: Option<LTy>,
    path: Seq<SubLoc>,
) -> Seq<(RewriteKind, Seq<SubLoc>)> {
    match (op.spec_place(), expect) {
        (Some(pl), Some(e)) => if !pl.lty.label.spec_is_none() {
            cast_lty_lty_rewrites(asn, pl.lty, e, path)
        } else {
            seq![]
        },
        _ => seq![],
    }
}

pub open spec fn operand_desc_rewrites(
    asn: &Assignment,
    op: Operand,
    expect: TypeDesc,
    path: Seq<SubLoc>,
) -> Seq<(RewriteKind, Seq<SubLoc>)> {
    match op.spec_place() {
        Some(pl) => if !pl.lty.label.spec_is_none() {
            cast_desc_desc_rewrites(spec_lty_desc(asn, pl.lty), expect, path)
        } else {
            seq![]
        },
        None => seq![],
    }
}

/// `&raw` becomes a reference when its target is to be one; the address of a cell is
/// always taken immutably.
pub open spec fn addr_of_rewrites(own: Ownership, mutbl: Mutability, path: Seq<SubLoc>) -> Seq<
    (RewriteKind, Seq<SubLoc>),
> {
    match own {
        Ownership::Cell => one(RewriteKind::RawToRef { mutbl: false }, path),
        Ownership::Imm | Ownership::Mut => one(
            RewriteKind::RawToRef { mutbl: mutbl == Mutability::Mut },
            path,
        ),
        _ => seq![],
    }
}

/// Operands visited without an expected type emit nothing, so only `Use` and `AddressOf`
/// contribute.
pub open spec fn rvalue_rewrites(
    asn: &Assignment,
    rv: Rvalue,
    expect: Option<LTy>,
    path: Seq<SubLoc>,
) -> Seq<(RewriteKind, Seq<SubLoc>)> {
    match rv {
        Rvalue::Use(op) => operand_rewrites(asn, op, expect, path.push(SubLoc::RvalueOperand(0))),
        Rvalue::AddressOf(mutbl, _) => match expect {
            Some(e) => addr_of_rewrites(
                spec_lty_desc(asn, e).own,
                mutbl,
                path.push(SubLoc::RvalueOperand(0)),
            ),
            None => seq![],
        },
        _ => seq![],
    }
}

pub open spec fn widen_quantity(q: Quantity) -> Quantity {
    match q {
        Quantity::Single => Quantity::Slice,
        _ => q,
    }
}

/// The descriptor that the pointer argument of an offset call must have, given the
/// descriptor of the call's result.
pub open spec fn offset_arg_desc(result: TypeDesc) -> TypeDesc {
    TypeDesc { own: result.own, qty: widen_quantity(result.qty), pointee_ty: result.pointee_ty }
}

pub open spec fn ptr_offset_rewrites(
    asn: &Assignment,
    op: Operand,
    result_lty: LTy,
    path: Seq<SubLoc>,
) -> Seq<(RewriteKind, Seq<SubLoc>)> {
    let rd = spec_lty_desc(asn, result_lty);
    let mutbl = rd.own == Ownership::Mut;
    operand_desc_rewrites(asn, op, offset_arg_desc(rd), path.push(SubLoc::CallArg(0))) + one(
        RewriteKind::OffsetSlice { mutbl },
        path,
    ) + if rd.qty == Quantity::Single {
        one(RewriteKind::SliceFirst { mutbl }, path)
    } else {
        seq![]
    }
}

pub open spec fn slice_as_ptr_rewrites(
    asn: &Assignment,
    op: Operand,
    result_lty: LTy,
    path: Seq<SubLoc>,
) -> Seq<(RewriteKind, Seq<SubLoc>)> {
    let od = spec_lty_desc(asn, op.spec_lty());
    let rd = spec_lty_desc(asn, result_lty);
    if od.own == rd.own && od.qty == rd.qty {
        one(RewriteKind::RemoveAsPtr, path)
    } else {
        seq![]
    }
}

/// `*x = v` where `x` is a cell pointer becomes a cell write.
pub open spec fn cell_set_rewrites(asn: &Assignment, dest: Place) -> Seq<
    (RewriteKind, Seq<SubLoc>),
> {
    if dest.indirect && dest.local_lty.ty.spec_is_any_ptr() && spec_lty_desc(
        asn,
        dest.local_lty,
    ).own == Ownership::Cell {
        one(RewriteKind::CellSet, seq![SubLoc::AssignRvalue])
    } else {
        seq![]
    }
}

/// `x = v` where `x` is a cell local wraps `v` in a new cell; `x = *y` where `y` is a cell
/// pointer reads the cell.
pub open spec fn cell_use_rewrites(asn: &Assignment, dest: Place, rv: Rvalue) -> Seq<
    (RewriteKind, Seq<SubLoc>),
> {
    match rv {
        Rvalue::Use(op) => {
            let path = seq![SubLoc::AssignRvalue, SubLoc::RvalueOperand(0)];
            let local_desc = spec_local_perms_to_desc(
                dest.local_lty.ty,
                perms_of(asn, dest.local_addr.index),
                flags_of(asn, dest.local_addr.index),
            );
            (if local_desc.own == Ownership::Cell {
                one(RewriteKind::CellNew, path)
            } else {
                seq![]
            }) + match op.spec_place() {
                Some(p) => if p.indirect && p.local_lty.ty.spec_is_any_ptr() && bits_contain(
                    flags_of(asn, p.local_lty.label.index).bits,
                    CELL,
                ) {
                    one(RewriteKind::CellGet, path)
                } else {
                    seq![]
                },
                None => seq![],
            }
        },
        _ => seq![],
    }
}

pub open spec fn statement_rewrites(asn: &Assignment, kind: StatementKind) -> Seq<
    (RewriteKind, Seq<SubLoc>),
> {
    match kind {
        StatementKind::Assign { dest, rvalue, rvalue_lty, void_cast } => if void_cast
            && rvalue is Cast {
            seq![]
        } else {
            cell_set_rewrites(asn, dest) + cell_use_rewrites(asn, dest, rvalue) + rvalue_rewrites(
                asn,
                rvalue,
                Some(rvalue_lty),
                seq![SubLoc::AssignRvalue],
            ) + cast_lty_lty_rewrites(asn, rvalue_lty, dest.lty, seq![])
        },
        _ => seq![],
    }
}

pub open spec fn statement_supported(kind: StatementKind) -> bool {
    !(kind is SetDiscriminant) && !(kind is CopyNonOverlapping)
}

pub open spec fn terminator_rewrites(asn: &Assignment, kind: TerminatorKind) -> Seq<
    (RewriteKind, Seq<SubLoc>),
> {
    match kind {
        TerminatorKind::Call { callee, args, destination } => if args@.len() > 0 {
            match callee {
                Callee::PtrOffset => ptr_offset_rewrites(asn, args@[0], destination.lty, seq![]),
                Callee::SliceAsPtr => slice_as_ptr_rewrites(
                    asn,
                    args@[0],
                    destination.lty,
                    seq![],
                ),
                Callee::Other => seq![],
            }
        } else {
            seq![]
        },
        _ => seq![],
    }
}

/// Inline assembly is not handled, nor a special callee without its pointer argument.
pub open spec fn terminator_supported(kind: TerminatorKind) -> bool {
    match kind {
        TerminatorKind::InlineAsm => false,
        TerminatorKind::Call { callee, args, .. } => callee == Callee::Other || args@.len() > 0,
        _ => true,
    }
}

/// The rewrites of the instruction at `loc`; none where there is no instruction.
pub open spec fn location_rewrites(asn: &Assignment, body: &Body, loc: Location) -> Seq<
    (RewriteKind, Seq<SubLoc>),
> {
    match spec_stmt_at(body, loc) {
        Some(s) => statement_rewrites(asn, s.kind),
        None => match spec_term_at(body, loc) {
            Some(t) => terminator_rewrites(asn, t.kind),
            None => seq![],
        },
    }
}

pub open spec fn location_supported(body: &Body, loc: Location) -> bool {
    match spec_stmt_at(body, loc) {
        Some(s) => statement_supported(s.kind),
        None => match spec_term_at(body, loc) {
            Some(t) => terminator_supported(t.kind),
            None => true,
        },
    }
}

/// The unsupported casts among those `cast_desc_desc_rewrites` considers: each is reported
/// once, as a pair of descriptors.
pub open spec fn cast_desc_desc_diags(from: TypeDesc, to: TypeDesc) -> Seq<(TypeDesc, TypeDesc)> {
    if is_unsupported_cast(from, to) {
        seq![(from, to)]
    } else {
        seq![]
    }
}

pub open spec fn cast_lty_lty_diags(asn: &Assignment, from: LTy, to: LTy) -> Seq<(TypeDesc, TypeDesc)> {
    if from.label.spec_is_none() && to.label.spec_is_none() {
        seq![]
    } else if !from.ty.spec_is_raw_ptr() && !to.ty.spec_is_raw_ptr() {
        seq![]
    } else {
        cast_desc_desc_diags(spec_lty_desc(asn, from), spec_lty_desc(asn, to))
    }
}

pub open spec fn operand_diags(asn: &Assignment, op: Operand, expect: Option<LTy>) -> Seq<
    (TypeDesc, TypeDesc),
> {
    match (op.spec_place(), expect) {
        (Some(pl), Some(e)) => if !pl.lty.label.spec_is_none() {
            cast_lty_lty_diags(asn, pl.lty, e)
        } else {
            seq![]
        },
        _ => seq![],
    }
}

pub open spec fn operand_desc_diags(asn: &Assignment, op: Operand, expect: TypeDesc) -> Seq<
    (TypeDesc, TypeDesc),
> {
    match op.spec_place() {
        Some(pl) => if !pl.lty.label.spec_is_none() {
            cast_desc_desc_diags(spec_lty_desc(asn, pl.lty), expect)
        } else {
            seq![]
        },
        None => seq![],
    }
}

pub open spec fn rvalue_diags(asn: &Assignment, rv: Rvalue, expect: Option<LTy>) -> Seq<
    (TypeDesc, TypeDesc),
> {
    match rv {
        Rvalue::Use(op) => operand_diags(asn, op, expect),
        _ => seq![],
    }
}

pub open spec fn ptr_offset_diags(asn: &Assignment, op: Operand, result_lty: LTy) -> Seq<
    (TypeDesc, TypeDesc),
> {
    operand_desc_diags(asn, op, offset_arg_desc(spec_lty_desc(asn, result_lty)))
}

pub open spec fn statement_diags(asn: &Assignment, kind: StatementKind) -> Seq<(TypeDesc, TypeDesc)> {
    match kind {
        StatementKind::Assign { dest, rvalue, rvalue_lty, void_cast } => if void_cast
            && rvalue is Cast {
            seq![]
        } else {
            rvalue_diags(asn, rvalue, Some(rvalue_lty)) + cast_lty_lty_diags(
                asn,
                rvalue_lty,
                dest.lty,
            )
        },
        _ => seq![],
    }
}

pub open spec fn terminator_diags(asn: &Assignment, kind: TerminatorKind) -> Seq<
    (TypeDesc, TypeDesc),
> {
    match kind {
        TerminatorKind::Call { callee, args, destination } => if args@.len() > 0 && callee
            == Callee::PtrOffset {
            ptr_offset_diags(asn, args@[0], destination.lty)
        } else {
            seq![]
        },
        _ => seq![],
    }
}

/// The unsupported casts met at the instruction at `loc`.
pub open spec fn location_diags(asn: &Assignment, body: &Body, loc: Location) -> Seq<
    (TypeDesc, TypeDesc),
> {
    match spec_stmt_at(body, loc) {
        Some(s) => statement_diags(asn, s.kind),
        None => match spec_term_at(body, loc) {
            Some(t) => terminator_diags(asn, t.kind),
            None => seq![],
        },
    }
}

pub open spec fn with_loc(pairs: Seq<(TypeDesc, TypeDesc)>, loc: Location) -> Seq<CastDiag> {
    pairs.map_values(|p: (TypeDesc, TypeDesc)| CastDiag { loc, from: p.0, to: p.1 })
}

} // verus!

verus! {

struct ExprRewriteVisitor<'a> {
    acx: &'a Assignment,
    /// The rewrites of the instruction being visited.
    current: Vec<MirRewrite>,
    /// Unsupported casts met so far.
    diags: Vec<CastDiag>,
    loc: Location,
    /// The path from the instruction to the part being visited.
    sub_loc: Vec<SubLoc>,
}

impl<'a> ExprRewriteVisitor<'a> {
    spec fn out(&self) -> Seq<(RewriteKind, Seq<SubLoc>)> {
        rewrites_view(self.current@)
    }

    /// `self` and `other` differ at most in the emitted rewrites and diagnostics.
    spec fn same_place(&self, other: &Self) -> bool {
        self.acx == other.acx && self.loc == other.loc && self.sub_loc@ == other.sub_loc@
    }

    /// `self` has the diagnostics of `old`, then the casts `pairs` at the current instruction.
    spec fn diags_added(&self, old: &Self, pairs: Seq<(TypeDesc, TypeDesc)>) -> bool {
        self.diags@ == old.diags@ + with_loc(pairs, old.loc)
    }

    fn new(acx: &'a Assignment) -> (r: ExprRewriteVisitor<'a>)
        ensures
            r.acx == acx,
            r.current@.len() == 0,
            r.diags@.len() == 0,
            r.sub_loc@.len() == 0,
    {
        ExprRewriteVisitor {
            acx,
            current: Vec::new(),
            diags: Vec::new(),
            loc: Location { block: 0, statement_index: 0 },
            sub_loc: Vec::new(),
        }
    }

    fn enter(&mut self, sub: SubLoc)
        ensures
            final(self).sub_loc@ == old(self).sub_loc@.push(sub),
            final(self).diags@ == old(self).diags@,
            final(self).acx == old(self).acx,
            final(self).loc == old(self).loc,
            final(self).current@ == old(self).current@,
    {
        self.sub_loc.push(sub);
    }

    fn leave(&mut self)
        requires
            old(self).sub_loc@.len() > 0,
        ensures
            final(self).sub_loc@ == old(self).sub_loc@.drop_last(),
            final(self).diags@ == old(self).diags@,
            final(self).acx == old(self).acx,
            final(self).loc == old(self).loc,
            final(self).current@ == old(self).current@,
    {
        self.sub_loc.pop();
    }

    fn emit(&mut self, kind: RewriteKind)
        ensures
            final(self).out() == old(self).out().push((kind, old(self).sub_loc@)),
            final(self).same_place(old(self)),
            final(self).diags@ == old(self).diags@,
    {
        let sub_loc = self.sub_loc.clone();
        assert(sub_loc@ =~= self.sub_loc@);
        self.current.push(MirRewrite { kind, sub_loc });
        assert(self.out() =~= old(self).out().push((kind, old(self).sub_loc@)));
    }

    /// Emits what turns a value described by `from` into one described by `to`: nothing when
    /// they agree, `MutToImm` for a narrowing, and otherwise a diagnostic.
    fn emit_cast_desc_desc(&mut self, from: TypeDesc, to: TypeDesc)
        ensures
            final(self).out() == old(self).out() + cast_desc_desc_rewrites(
                from,
                to,
                old(self).sub_loc@,
            ),
            final(self).same_place(old(self)),
            final(self).diags_added(old(self), cast_desc_desc_diags(from, to)),
    {
        if from == to {
            assert(self.out() =~= old(self).out() + seq![]);
            assert(self.diags@ =~= old(self).diags@ + with_loc(cast_desc_desc_diags(from, to), old(self).loc));
            return ;
        }
        if from.pointee_ty == to.pointee_ty && from.qty == to.qty && from.own == Ownership::Mut
            && to.own == Ownership::Imm {
            self.emit(RewriteKind::MutToImm);
            assert(self.diags@ =~= old(self).diags@ + with_loc(cast_desc_desc_diags(from, to), old(self).loc));
            return ;
        }
        self.diags.push(CastDiag { loc: self.loc, from, to });
        assert(self.out() =~= old(self).out() + seq![]);
        assert(self.diags@ =~= old(self).diags@ + with_loc(cast_desc_desc_diags(from, to), old(self).loc));
    }

    fn emit_cast_lty_desc(&mut self, from_lty: LTy, to: TypeDesc)
        ensures
            final(self).out() == old(self).out() + cast_desc_desc_rewrites(
                spec_lty_desc(old(self).acx, from_lty),
                to,
                old(self).sub_loc@,
            ),
            final(self).same_place(old(self)),
            final(self).diags_added(old(self), cast_desc_desc_diags(spec_lty_desc(old(self).acx, from_lty), to)),
    {
        let from = lty_desc(self.acx, from_lty);
        self.emit_cast_desc_desc(from, to);
    }

    fn emit_cast_desc_lty(&mut self, from: TypeDesc, to_lty: LTy)
        ensures
            final(self).out() == old(self).out() + cast_desc_desc_rewrites(
                from,
                spec_lty_desc(old(self).acx, to_lty),
                old(self).sub_loc@,
            ),
            final(self).same_place(old(self)),
            final(self).diags_added(old(self), cast_desc_desc_diags(from, spec_lty_desc(old(self).acx, to_lty))),
    {
        let to = lty_desc(self.acx, to_lty);
        self.emit_cast_desc_desc(from, to);
    }

    fn emit_cast_lty_lty(&mut self, from_lty: LTy, to_lty: LTy)
        ensures
            final(self).out() == old(self).out() + cast_lty_lty_rewrites(
                old(self).acx,
                from_lty,
                to_lty,
                old(self).sub_loc@,
            ),
            final(self).same_place(old(self)),
            final(self).diags_added(old(self), cast_lty_lty_diags(old(self).acx, from_lty, to_lty)),
    {
        if from_lty.label.is_none() && to_lty.label.is_none() {
            assert(self.out() =~= old(self).out() + seq![]);
            return ;
        }
        let from_raw = from_lty.ty.is_raw_ptr();
        let to_raw = to_lty.ty.is_raw_ptr();
        if !from_raw && !to_raw {
            assert(self.out() =~= old(self).out() + seq![]);
            return ;
        }
        let from = lty_desc(self.acx, from_lty);
        self.emit_cast_desc_lty(from, to_lty);
    }

    /// Visits an operand; with an expected type, also emits the casts that make the operand
    /// produce it.
    fn visit_operand(&mut self, op: &Operand, expect_ty: Option<LTy>)
        ensures
            final(self).out() == old(self).out() + operand_rewrites(
                old(self).acx,
                *op,
                expect_ty,
                old(self).sub_loc@,
            ),
            final(self).same_place(old(self)),
            final(self).diags_added(old(self), operand_diags(old(self).acx, *op, expect_ty)),
    {
        match *op {
            Operand::Copy(pl) | Operand::Move(pl) => {
                if let Some(expect_ty) = expect_ty {
                    if !pl.lty.label.is_none() {
                        self.emit_cast_lty_lty(pl.lty, expect_ty);
                        return ;
                    }
                }
                assert(self.out() =~= old(self).out() + seq![]);
            },
            Operand::Constant(..) => {
                assert(self.out() =~= old(self).out() + seq![]);
            },
        }
    }

    /// Like `visit_operand`, but with an expected descriptor in place of a type.
    fn visit_operand_desc(&mut self, op: &Operand, expect_desc: TypeDesc)
        ensures
            final(self).out() == old(self).out() + operand_desc_rewrites(
                old(self).acx,
                *op,
                expect_desc,
                old(self).sub_loc@,
            ),
            final(self).same_place(old(self)),
            final(self).diags_added(old(self), operand_desc_diags(old(self).acx, *op, expect_desc)),
    {
        match *op {
            Operand::Copy(pl) | Operand::Move(pl) => {
                if !pl.lty.label.is_none() {
                    self.emit_cast_lty_desc(pl.lty, expect_desc);
                } else {
                    assert(self.out() =~= old(self).out() + seq![]);
                }
            },
            Operand::Constant(..) => {
                assert(self.out() =~= old(self).out() + seq![]);
            },
        }
    }

    /// Visits operand `i` of an rvalue, with no expected type.
    fn visit_rvalue_operand(&mut self, i: usize, op: &Operand)
        ensures
            final(self).out() == old(self).out(),
            final(self).same_place(old(self)),
            final(self).diags@ == old(self).diags@,
    {
        self.enter(SubLoc::RvalueOperand(i));
        self.visit_operand(op, None);
        self.leave();
        assert(self.sub_loc@ =~= old(self).sub_loc@);
        assert(self.out() =~= old(self).out());
    }

    /// Visits an rvalue; with an expected type, also emits the rewrites that make the rvalue
    /// produce it.
    fn visit_rvalue(&mut self, rv: &Rvalue, expect_ty: Option<LTy>)
        ensures
            final(self).out() == old(self).out() + rvalue_rewrites(
                old(self).acx,
                *rv,
                expect_ty,
                old(self).sub_loc@,
            ),
            final(self).same_place(old(self)),
            final(self).diags_added(old(self), rvalue_diags(old(self).acx, *rv, expect_ty)),
    {
        match rv {
            Rvalue::Use(op) => {
                self.enter(SubLoc::RvalueOperand(0));
                self.visit_operand(op, expect_ty);
                self.leave();
                assert(self.sub_loc@ =~= old(self).sub_loc@);
                return ;
            },
            Rvalue::AddressOf(mutbl, _pl) => {
                if let Some(expect_ty) = expect_ty {
                    let desc = lty_desc(self.acx, expect_ty);
                    self.enter(SubLoc::RvalueOperand(0));
                    match desc.own {
                        Ownership::Cell => self.emit(RewriteKind::RawToRef { mutbl: false }),
                        Ownership::Imm | Ownership::Mut => self.emit(
                            RewriteKind::RawToRef { mutbl: *mutbl == Mutability::Mut },
                        ),
                        _ => {
                            assert(self.out() =~= old(self).out() + seq![]);
                        },
                    }
                    self.leave();
                    assert(self.sub_loc@ =~= old(self).sub_loc@);
                    assert(self.diags@ =~= old(self).diags@ + with_loc(seq![], old(self).loc));
                    return ;
                }
            },
            Rvalue::Repeat(op) | Rvalue::Cast(op) | Rvalue::UnaryOp(op) | Rvalue::ShallowInitBox(
                op,
            ) => {
                self.visit_rvalue_operand(0, op);
            },
            Rvalue::BinaryOp(a, b) | Rvalue::CheckedBinaryOp(a, b) => {
                self.visit_rvalue_operand(0, a);
                self.visit_rvalue_operand(1, b);
            },
            Rvalue::Aggregate(ops) => {
                let mut i: usize = 0;
                while i < ops.len()
                    invariant
                        self.out() == old(self).out(),
                        self.same_place(old(self)),
                        self.diags@ == old(self).diags@,
                    decreases ops.len() - i,
                {
                    self.visit_rvalue_operand(i, &ops[i]);
                    i = i + 1;
                }
            },
            _ => {},
        }
        assert(self.out() =~= old(self).out() + seq![]);
        assert(self.diags@ =~= old(self).diags@ + with_loc(seq![], old(self).loc));
    }

    /// `ptr.offset(n)` becomes a slice from `n` onward, narrowed back to its first element
    /// when the result is a single reference; the pointer argument must then be a slice.
    fn visit_ptr_offset(&mut self, op: &Operand, result_ty: LTy)
        ensures
            final(self).out() == old(self).out() + ptr_offset_rewrites(
                old(self).acx,
                *op,
                result_ty,
                old(self).sub_loc@,
            ),
            final(self).same_place(old(self)),
            final(self).diags_added(old(self), ptr_offset_diags(old(self).acx, *op, result_ty)),
    {
        let result_desc = lty_desc(self.acx, result_ty);
        let qty = match result_desc.qty {
            Quantity::Single => Quantity::Slice,
            Quantity::Slice => Quantity::Slice,
            Quantity::OffsetPtr => Quantity::OffsetPtr,
            Quantity::Array => Quantity::Array,
        };
        let arg_expect_desc = TypeDesc {
            own: result_desc.own,
            qty,
            pointee_ty: result_desc.pointee_ty,
        };
        self.enter(SubLoc::CallArg(0));
        self.visit_operand_desc(op, arg_expect_desc);
        self.leave();
        assert(self.sub_loc@ =~= old(self).sub_loc@);
        let mutbl = result_desc.own == Ownership::Mut;
        self.emit(RewriteKind::OffsetSlice { mutbl });
        if result_desc.qty == Quantity::Single {
            self.emit(RewriteKind::SliceFirst { mutbl });
        }
        assert(self.out() =~= old(self).out() + ptr_offset_rewrites(
            old(self).acx,
            *op,
            result_ty,
            old(self).sub_loc@,
        ));
    }

    /// A call to `as_ptr` is redundant when its operand and result are to have the same
    /// ownership and quantity.
    fn visit_slice_as_ptr(&mut self, op: &Operand, result_lty: LTy)
        ensures
            final(self).out() == old(self).out() + slice_as_ptr_rewrites(
                old(self).acx,
                *op,
                result_lty,
                old(self).sub_loc@,
            ),
            final(self).same_place(old(self)),
            final(self).diags@ == old(self).diags@,
    {
        let op_desc = lty_desc(self.acx, op.lty());
        let result_desc = lty_desc(self.acx, result_lty);
        if op_desc.own == result_desc.own && op_desc.qty == result_desc.qty {
            self.emit(RewriteKind::RemoveAsPtr);
        } else {
            assert(self.out() =~= old(self).out() + seq![]);
        }
    }

    /// Emits `kind` at `[AssignRvalue, RvalueOperand(0)]` below the current path.
    fn emit_in_rvalue_operand(&mut self, kind: RewriteKind)
        ensures
            final(self).out() == old(self).out().push(
                (
                    kind,
                    old(self).sub_loc@.push(SubLoc::AssignRvalue).push(SubLoc::RvalueOperand(0)),
                ),
            ),
            final(self).same_place(old(self)),
            final(self).diags@ == old(self).diags@,
    {
        self.enter(SubLoc::AssignRvalue);
        self.enter(SubLoc::RvalueOperand(0));
        self.emit(kind);
        self.leave();
        self.leave();
        assert(self.sub_loc@ =~= old(self).sub_loc@);
    }

    fn visit_cell_set(&mut self, pl: Place)
        requires
            old(self).sub_loc@.len() == 0,
        ensures
            final(self).out() == old(self).out() + cell_set_rewrites(old(self).acx, pl),
            final(self).same_place(old(self)),
            final(self).diags@ == old(self).diags@,
    {
        assert(self.sub_loc@.push(SubLoc::AssignRvalue) =~= seq![SubLoc::AssignRvalue]);
        if pl.indirect && pl.local_lty.ty.is_any_ptr() {
            let desc = lty_desc(self.acx, pl.local_lty);
            if desc.own == Ownership::Cell {
                // `*x = v` where `x` is a cell pointer.
                self.enter(SubLoc::AssignRvalue);
                self.emit(RewriteKind::CellSet);
                self.leave();
                assert(self.sub_loc@ =~= old(self).sub_loc@);
                assert(self.out() =~= old(self).out() + cell_set_rewrites(self.acx, pl));
                return ;
            }
        }
        assert(self.out() =~= old(self).out() + cell_set_rewrites(self.acx, pl));
    }

    fn visit_cell_use(&mut self, pl: Place, rvalue: &Rvalue)
        requires
            old(self).sub_loc@.len() == 0,
        ensures
            final(self).out() == old(self).out() + cell_use_rewrites(old(self).acx, pl, *rvalue),
            final(self).same_place(old(self)),
            final(self).diags@ == old(self).diags@,
    {
        assert(self.sub_loc@.push(SubLoc::AssignRvalue).push(SubLoc::RvalueOperand(0)) =~= seq![
            SubLoc::AssignRvalue,
            SubLoc::RvalueOperand(0),
        ]);
        if let Rvalue::Use(rv_op) = rvalue {
            let desc = local_perms_to_desc(
                pl.local_lty.ty,
                self.acx.perm(pl.local_addr.index),
                self.acx.flag(pl.local_addr.index),
            );
            if desc.own == Ownership::Cell {
                // `x = v` where `x` is a cell local.
                self.emit_in_rvalue_operand(RewriteKind::CellNew);
            }
            if let Some(rv_place) = rv_op.place() {
                if rv_place.indirect && rv_place.local_lty.ty.is_any_ptr() {
                    let flags = self.acx.flag(rv_place.local_lty.label.index);
                    if flags.contains(CELL) {
                        // `x = *y` where `y` is a cell pointer.
                        self.emit_in_rvalue_operand(RewriteKind::CellGet);
                    }
                }
            }
        }
        assert(self.out() =~= old(self).out() + cell_use_rewrites(self.acx, pl, *rvalue));
    }

    fn visit_assign(&mut self, pl: Place, rvalue: &Rvalue, rvalue_lty: LTy)
        requires
            old(self).sub_loc@.len() == 0,
        ensures
            final(self).out() == old(self).out() + cell_set_rewrites(old(self).acx, pl)
                + cell_use_rewrites(old(self).acx, pl, *rvalue) + rvalue_rewrites(
                old(self).acx,
                *rvalue,
                Some(rvalue_lty),
                seq![SubLoc::AssignRvalue],
            ) + cast_lty_lty_rewrites(old(self).acx, rvalue_lty, pl.lty, seq![]),
            final(self).same_place(old(self)),
            final(self).diags_added(old(self), rvalue_diags(old(self).acx, *rvalue, Some(rvalue_lty)) + cast_lty_lty_diags(old(self).acx, rvalue_lty, pl.lty)),
    {
        let ghost d0 = self.diags@;
        self.visit_cell_set(pl);
        self.visit_cell_use(pl, rvalue);
        assert(self.sub_loc@.push(SubLoc::AssignRvalue) =~= seq![SubLoc::AssignRvalue]);
        self.enter(SubLoc::AssignRvalue);
        self.visit_rvalue(rvalue, Some(rvalue_lty));
        self.leave();
        assert(self.sub_loc@ =~= old(self).sub_loc@);
        assert(self.sub_loc@ =~= seq![]);
        let ghost d1 = self.diags@;
        self.emit_cast_lty_lty(rvalue_lty, pl.lty);
        let ghost a = rvalue_diags(self.acx, *rvalue, Some(rvalue_lty));
        let ghost b = cast_lty_lty_diags(self.acx, rvalue_lty, pl.lty);
        assert(with_loc(a + b, self.loc) =~= with_loc(a, self.loc) + with_loc(b, self.loc));
        assert(self.diags@ =~= d0 + with_loc(a + b, self.loc));
        assert(self.out() =~= old(self).out() + cell_set_rewrites(self.acx, pl)
            + cell_use_rewrites(self.acx, pl, *rvalue) + rvalue_rewrites(
            self.acx,
            *rvalue,
            Some(rvalue_lty),
            seq![SubLoc::AssignRvalue],
        ) + cast_lty_lty_rewrites(self.acx, rvalue_lty, pl.lty, seq![]));
    }

    fn visit_statement(&mut self, stmt: &Statement, loc: Location) -> (r: Result<(), RewriteError>)
        requires
            old(self).sub_loc@.len() == 0,
        ensures
            final(self).sub_loc@.len() == 0,
            final(self).acx == old(self).acx,
            final(self).loc == loc,
            r is Ok ==> final(self).diags@ == old(self).diags@ + with_loc(
                statement_diags(old(self).acx, stmt.kind),
                loc,
            ),
            r is Ok <==> statement_supported(stmt.kind),
            r is Ok ==> final(self).out() == old(self).out() + statement_rewrites(
                old(self).acx,
                stmt.kind,
            ),
            r is Err ==> r == Err::<(), RewriteError>(RewriteError::UnsupportedStatement(loc))
                && final(self).out() == old(self).out(),
    {
        self.loc = loc;
        match &stmt.kind {
            StatementKind::Assign { dest, rvalue, rvalue_lty, void_cast } => {
                if *void_cast && matches!(rvalue, Rvalue::Cast(_)) {
                    // A cast to or from `void*` around an allocation call is left alone.
                    assert(self.out() =~= old(self).out() + seq![]);
                    return Ok(());
                }
                self.visit_assign(*dest, rvalue, *rvalue_lty);
                Ok(())
            },
            StatementKind::SetDiscriminant | StatementKind::CopyNonOverlapping => {
                Err(RewriteError::UnsupportedStatement(loc))
            },
            _ => {
                assert(self.out() =~= old(self).out() + seq![]);
                Ok(())
            },
        }
    }

    fn visit_terminator(&mut self, term: &Terminator, loc: Location) -> (r: Result<
        (),
        RewriteError,
    >)
        requires
            old(self).sub_loc@.len() == 0,
        ensures
            final(self).sub_loc@.len() == 0,
            final(self).acx == old(self).acx,
            final(self).loc == loc,
            r is Ok ==> final(self).diags@ == old(self).diags@ + with_loc(
                terminator_diags(old(self).acx, term.kind),
                loc,
            ),
            r is Ok <==> terminator_supported(term.kind),
            r is Ok ==> final(self).out() == old(self).out() + terminator_rewrites(
                old(self).acx,
                term.kind,
            ),
            r is Err ==> r == Err::<(), RewriteError>(RewriteError::UnsupportedTerminator(loc))
                && final(self).out() == old(self).out(),
    {
        self.loc = loc;
        assert(self.sub_loc@ =~= seq![]);
        match &term.kind {
            TerminatorKind::Call { callee, args, destination } => {
                match callee {
                    Callee::PtrOffset => {
                        if args.len() == 0 {
                            return Err(RewriteError::UnsupportedTerminator(loc));
                        }
                        self.visit_ptr_offset(&args[0], destination.lty);
                        assert(self.sub_loc@.len() == 0);
                        Ok(())
                    },
                    Callee::SliceAsPtr => {
                        if args.len() == 0 {
                            return Err(RewriteError::UnsupportedTerminator(loc));
                        }
                        self.visit_slice_as_ptr(&args[0], destination.lty);
                        Ok(())
                    },
                    Callee::Other => {
                        // Arguments of other calls keep their types.
                        assert(self.out() =~= old(self).out() + seq![]);
                        Ok(())
                    },
                }
            },
            TerminatorKind::InlineAsm => Err(RewriteError::UnsupportedTerminator(loc)),
            _ => {
                assert(self.out() =~= old(self).out() + seq![]);
                Ok(())
            },
        }
    }

    /// Hands out the rewrites of the instruction just visited, leaving none.
    fn take_current(&mut self) -> (r: Vec<MirRewrite>)
        ensures
            r@ == old(self).current@,
            final(self).current@.len() == 0,
            final(self).same_place(old(self)),
            final(self).diags@ == old(self).diags@,
    {
        let mut r = Vec::new();
        std::mem::swap(&mut self.current, &mut r);
        r
    }
}

} // verus!

verus! {

/// The unsupported casts of the first `n` instructions of block `b`, in order.
pub open spec fn block_diags(asn: &Assignment, body: &Body, b: int, n: nat) -> Seq<CastDiag>
    decreases n,
{
    if n == 0 {
        seq![]
    } else {
        let loc = Location { block: b as usize, statement_index: (n - 1) as usize };
        block_diags(asn, body, b, (n - 1) as nat) + with_loc(location_diags(asn, body, loc), loc)
    }
}

/// The unsupported casts of the first `nb` blocks, in program order.
pub open spec fn body_diags(asn: &Assignment, body: &Body, nb: nat) -> Seq<CastDiag>
    decreases nb,
{
    if nb == 0 {
        seq![]
    } else {
        body_diags(asn, body, (nb - 1) as nat) + block_diags(
            asn,
            body,
            nb - 1,
            block_len(body, nb - 1),
        )
    }
}

/// The rewrites of a whole body, and the casts that could not be expressed.
pub struct MirRewrites {
    /// Each instruction that has rewrites, in program order, with its rewrites in the order
    /// they were emitted.
    pub rewrites: Vec<(Location, Vec<MirRewrite>)>,
    pub unsupported_casts: Vec<CastDiag>,
}

/// Each entry holds exactly the rewrites of its location, and at least one.
pub open spec fn entries_exact(
    asn: &Assignment,
    body: &Body,
    r: Seq<(Location, Vec<MirRewrite>)>,
) -> bool {
    forall|i: int|
        0 <= i < r.len() ==> #[trigger] rewrites_view(r[i].1@) == location_rewrites(
            asn,
            body,
            r[i].0,
        ) && r[i].1@.len() > 0
}

/// The entries' locations are strictly increasing in program order.
pub open spec fn entries_sorted(r: Seq<(Location, Vec<MirRewrite>)>) -> bool {
    forall|i: int, j: int| 0 <= i < j < r.len() ==> loc_lt(#[trigger] r[i].0, #[trigger] r[j].0)
}

/// Every location before `cur` that has rewrites has an entry.
pub open spec fn entries_cover_before(
    asn: &Assignment,
    body: &Body,
    r: Seq<(Location, Vec<MirRewrite>)>,
    cur: Location,
) -> bool {
    forall|loc: Location|
        loc_lt(loc, cur) && #[trigger] location_rewrites(asn, body, loc).len() > 0 ==> exists|
            i: int,
        |
            0 <= i < r.len() && #[trigger] r[i].0 == loc
}

pub open spec fn supported_before(body: &Body, cur: Location) -> bool {
    forall|loc: Location| loc_lt(loc, cur) ==> #[trigger] location_supported(body, loc)
}

pub open spec fn error_names_unsupported(body: &Body, e: RewriteError) -> bool {
    match e {
        RewriteError::UnsupportedStatement(l) => match spec_stmt_at(body, l) {
            Some(s) => !statement_supported(s.kind),
            None => false,
        },
        RewriteError::UnsupportedTerminator(l) => match spec_term_at(body, l) {
            Some(t) => !terminator_supported(t.kind),
            None => false,
        },
    }
}

proof fn lemma_cover_step(
    asn: &Assignment,
    body: &Body,
    old_r: Seq<(Location, Vec<MirRewrite>)>,
    r: Seq<(Location, Vec<MirRewrite>)>,
    cur: Location,
    next: Location,
)
    requires
        entries_cover_before(asn, body, old_r, cur),
        old_r.len() <= r.len(),
        forall|k: int| 0 <= k < old_r.len() ==> r[k] == old_r[k],
        location_rewrites(asn, body, cur).len() > 0 ==> r.len() > 0 && r.last().0 == cur,
        forall|loc: Location|
            loc_lt(loc, next) ==> loc_lt(loc, cur) || loc == cur || location_rewrites(
                asn,
                body,
                loc,
            ).len() == 0,
    ensures
        entries_cover_before(asn, body, r, next),
{
    assert forall|loc: Location|
        loc_lt(loc, next) && #[trigger] location_rewrites(asn, body, loc).len() > 0 implies exists|
            i: int,
        |
            0 <= i < r.len() && #[trigger] r[i].0 == loc by {
        if loc == cur {
            assert(r[r.len() - 1].0 == loc);
        } else {
            let k = choose|k: int| 0 <= k < old_r.len() && #[trigger] old_r[k].0 == loc;
            assert(r[k].0 == loc);
        }
    }
}

/// Annotates every instruction of `mir`, in program order, with the rewrites that the facts
/// of `acx` call for.  Fails on the first instruction that annotation cannot handle.
pub fn gen_mir_rewrites(acx: &Assignment, mir: &Body) -> (r: Result<MirRewrites, RewriteError>)
    ensures
        match r {
            Ok(m) => {
                &&& entries_exact(acx, mir, m.rewrites@)
                &&& entries_sorted(m.rewrites@)
                &&& forall|loc: Location| #[trigger]
                    location_rewrites(acx, mir, loc).len() > 0 ==> exists|i: int|
                        0 <= i < m.rewrites@.len() && #[trigger] m.rewrites@[i].0 == loc
                &&& forall|loc: Location| #[trigger] location_supported(mir, loc)
                &&& m.unsupported_casts@ == body_diags(acx, mir, mir.basic_blocks@.len())
            },
            Err(e) => error_names_unsupported(mir, e),
        },
{
    let mut out: Vec<(Location, Vec<MirRewrite>)> = Vec::new();
    let mut v = ExprRewriteVisitor::new(acx);
    let mut b: usize = 0;
    while b < mir.basic_blocks.len()
        invariant
            v.acx == acx,
            v.sub_loc@.len() == 0,
            v.current@.len() == 0,
            v.diags@ == body_diags(acx, mir, b as nat),
            b <= mir.basic_blocks@.len(),
            entries_exact(acx, mir, out@),
            entries_sorted(out@),
            forall|k: int|
                0 <= k < out@.len() ==> loc_lt(
                    #[trigger] out@[k].0,
                    Location { block: b, statement_index: 0 },
                ),
            entries_cover_before(acx, mir, out@, Location { block: b, statement_index: 0 }),
            supported_before(mir, Location { block: b, statement_index: 0 }),
        decreases mir.basic_blocks.len() - b,
    {
        let bb = &mir.basic_blocks[b];
        let mut i: usize = 0;
        while i < bb.statements.len()
            invariant
                v.acx == acx,
                v.sub_loc@.len() == 0,
                v.current@.len() == 0,
                v.diags@ == body_diags(acx, mir, b as nat) + block_diags(acx, mir, b as int, i as nat),
                b < mir.basic_blocks@.len(),
                *bb == mir.basic_blocks@[b as int],
                i <= bb.statements@.len(),
                entries_exact(acx, mir, out@),
                entries_sorted(out@),
                forall|k: int|
                    0 <= k < out@.len() ==> loc_lt(
                        #[trigger] out@[k].0,
                        Location { block: b, statement_index: i },
                    ),
                entries_cover_before(acx, mir, out@, Location { block: b, statement_index: i }),
                supported_before(mir, Location { block: b, statement_index: i }),
            decreases bb.statements.len() - i,
        {
            let loc = Location { block: b, statement_index: i };
            let res = v.visit_statement(&bb.statements[i], loc);
            assert(spec_stmt_at(mir, loc) == Some(bb.statements@[i as int]));
            if let Err(e) = res {
                return Err(e);
            }
            assert(v.diags@ =~= body_diags(acx, mir, b as nat) + block_diags(
                acx,
                mir,
                b as int,
                (i + 1) as nat,
            ));
            let ghost old_out = out@;
            let cur = v.take_current();
            assert(rewrites_view(cur@) =~= location_rewrites(acx, mir, loc));
            if cur.len() > 0 {
                out.push((loc, cur));
            }
            proof {
                let next = Location { block: b, statement_index: (i + 1) as usize };
                lemma_cover_step(acx, mir, old_out, out@, loc, next);
            }
            i = i + 1;
        }
        let tloc = Location { block: b, statement_index: bb.statements.len() };
        let ghost old_out = out@;
        if let Some(term) = &bb.terminator {
            let res = v.visit_terminator(term, tloc);
            if let Err(e) = res {
                return Err(e);
            }
            assert(v.diags@ =~= body_diags(acx, mir, b as nat) + block_diags(
                acx,
                mir,
                b as int,
                (bb.statements@.len() + 1) as nat,
            ));
            let cur = v.take_current();
            assert(rewrites_view(cur@) =~= location_rewrites(acx, mir, tloc));
            if cur.len() > 0 {
                out.push((tloc, cur));
            }
        }
        proof {
            let next = Location { block: (b + 1) as usize, statement_index: 0 };
            lemma_cover_step(acx, mir, old_out, out@, tloc, next);
        }
        assert(v.diags@ =~= body_diags(acx, mir, (b + 1) as nat));
        b = b + 1;
    }
    let ghost out_view = out@;
    let ghost diags_view = v.diags@;
    let m = MirRewrites { rewrites: out, unsupported_casts: v.diags };
    assert(m.rewrites@ == out_view);
    assert(m.unsupported_casts@ == diags_view);
    assert(b == mir.basic_blocks@.len());
    assert(diags_view == body_diags(acx, mir, mir.basic_blocks@.len()));
    assert(entries_exact(acx, mir, m.rewrites@));
    assert(entries_sorted(m.rewrites@));
    assert forall|loc: Location| #[trigger]
        location_rewrites(acx, mir, loc).len() > 0 implies exists|i: int|
            0 <= i < m.rewrites@.len() && #[trigger] m.rewrites@[i].0 == loc by {
        if loc.block < b {
            assert(loc_lt(loc, Location { block: b, statement_index: 0 }));
            let k = choose|k: int| 0 <= k < out_view.len() && #[trigger] out_view[k].0 == loc;
            assert(m.rewrites@[k].0 == loc);
        } else {
            assert(location_rewrites(acx, mir, loc).len() == 0);
        }
    }
    assert forall|loc: Location| #[trigger] location_supported(mir, loc) by {
        if loc.block < b {
            assert(loc_lt(loc, Location { block: b, statement_index: 0 }));
        }
    }
    Ok(m)
}

} // verus!

verus! {

/// A cast from a descriptor to itself emits no rewrite and no diagnostic.
pub proof fn lemma_cast_to_same_desc_is_noop(d: TypeDesc, path: Seq<SubLoc>)
    ensures
        cast_desc_desc_rewrites(d, d, path) == Seq::<(RewriteKind, Seq<SubLoc>)>::empty(),
        cast_desc_desc_diags(d, d) == Seq::<(TypeDesc, TypeDesc)>::empty(),
        !is_unsupported_cast(d, d),
{
}

/// A cast from a labelled type to itself emits no rewrite and no diagnostic.
pub proof fn lemma_cast_to_same_type_is_noop(asn: &Assignment, lty: LTy, path: Seq<SubLoc>)
    ensures
        cast_lty_lty_rewrites(asn, lty, lty, path) == Seq::<(RewriteKind, Seq<SubLoc>)>::empty(),
        cast_lty_lty_diags(asn, lty, lty) == Seq::<(TypeDesc, TypeDesc)>::empty(),
{
}

/// When an offset call's result is a single reference, its pointer argument is expected to
/// be a slice, and the call itself gets exactly `OffsetSlice` and then `SliceFirst`, after
/// whatever casting the argument needs.
pub proof fn lemma_offset_call_widens_single(
    asn: &Assignment,
    op: Operand,
    result_lty: LTy,
    path: Seq<SubLoc>,
)
    requires
        spec_lty_desc(asn, result_lty).qty == Quantity::Single,
    ensures
        ({
            let rd = spec_lty_desc(asn, result_lty);
            let mutbl = rd.own == Ownership::Mut;
            &&& offset_arg_desc(rd).qty == Quantity::Slice
            &&& ptr_offset_rewrites(asn, op, result_lty, path) == operand_desc_rewrites(
                asn,
                op,
                offset_arg_desc(rd),
                path.push(SubLoc::CallArg(0)),
            ) + seq![
                (RewriteKind::OffsetSlice { mutbl }, path),
                (RewriteKind::SliceFirst { mutbl }, path),
            ]
        }),
{
    let rd = spec_lty_desc(asn, result_lty);
    let mutbl = rd.own == Ownership::Mut;
    let a = operand_desc_rewrites(asn, op, offset_arg_desc(rd), path.push(SubLoc::CallArg(0)));
    assert(a + one(RewriteKind::OffsetSlice { mutbl }, path) + one(
        RewriteKind::SliceFirst { mutbl },
        path,
    ) =~= a + seq![
        (RewriteKind::OffsetSlice { mutbl }, path),
        (RewriteKind::SliceFirst { mutbl }, path),
    ]);
}

/// When an accessor call's operand and result are to have the same ownership and quantity,
/// the call gets exactly one `RemoveAsPtr` and nothing else.
pub proof fn lemma_redundant_accessor_removed(
    asn: &Assignment,
    op: Operand,
    result_lty: LTy,
    path: Seq<SubLoc>,
)
    requires
        spec_lty_desc(asn, op.spec_lty()).own == spec_lty_desc(asn, result_lty).own,
        spec_lty_desc(asn, op.spec_lty()).qty == spec_lty_desc(asn, result_lty).qty,
    ensures
        slice_as_ptr_rewrites(asn, op, result_lty, path) == seq![(RewriteKind::RemoveAsPtr, path)],
{
}

} // verus!
