//! The unlowering map: for each IR-L instruction, and each part of one, the source expression
//! that was lowered to produce it.
//!
//! For `a + 1` stored into a temporary, the assignment as a whole is recorded as storing the
//! expression into a local, and its right-hand side as the expression itself.  A call also
//! records each argument operand as the matching argument expression.
use vstd::prelude::*;

use crate::mir::{Body, Location, Place, Span, StatementKind, TerminatorKind, spec_stmt_at, spec_term_at};
use crate::mir_op::SubLoc;
use crate::span_index::{SpanIndex, block_entries, block_len, body_entries, build_span_index, instr_span};

verus! {

/// What part of an expression a piece of IR-L stands for.
#[derive(Clone, Copy, PartialEq, Eq, Debug, Hash, Structural)]
pub enum MirOriginDesc {
    /// The whole expression.
    Expr,
    /// Storing the expression's result into a local.
    StoreIntoLocal,
}

/// The source expression that a piece of IR-L came from.
#[derive(Clone, Copy, PartialEq, Eq, Debug, Hash, Structural)]
pub struct MirOrigin {
    pub hir_id: u64,
    pub span: Span,
    pub desc: MirOriginDesc,
}

/// The syntactic shape of a source expression; sub-expressions are indices into the body.
#[derive(Clone, PartialEq, Eq, Debug)]
pub enum HirExprKind {
    /// `lhs = rhs`
    Assign(usize, usize),
    /// `f(args)`
    Call(Vec<usize>),
    /// `recv.m(args)`, the receiver being the first argument.
    MethodCall(Vec<usize>),
    Other,
}

#[derive(Clone, PartialEq, Eq, Debug)]
pub struct HirExpr {
    pub hir_id: u64,
    pub span: Span,
    pub kind: HirExprKind,
}

/// The expressions of a function body, in the order a pre-order walk visits them.
#[derive(Clone, PartialEq, Eq, Debug)]
pub struct HirBody {
    pub exprs: Vec<HirExpr>,
}

/// Every sub-expression index names an expression of the body.
pub open spec fn hir_wf(hir: &HirBody) -> bool {
    forall|k: int|
        0 <= k < hir.exprs@.len() ==> match #[trigger] hir.exprs@[k].kind {
            HirExprKind::Assign(l, r) => l < hir.exprs@.len() && r < hir.exprs@.len(),
            HirExprKind::Call(args) => forall|i: int|
                0 <= i < args@.len() ==> #[trigger] args@[i] < hir.exprs@.len(),
            HirExprKind::MethodCall(args) => forall|i: int|
                0 <= i < args@.len() ==> #[trigger] args@[i] < hir.exprs@.len(),
            HirExprKind::Other => true,
        }
}

fn indices_below(args: &Vec<usize>, n: usize) -> (r: bool)
    ensures
        r == forall|i: int| 0 <= i < args@.len() ==> #[trigger] args@[i] < n,
{
    let mut i: usize = 0;
    while i < args.len()
        invariant
            i <= args@.len(),
            forall|j: int| 0 <= j < i ==> #[trigger] args@[j] < n,
        decreases args@.len() - i,
    {
        if args[i] >= n {
            return false;
        }
        i = i + 1;
    }
    true
}

/// Whether every sub-expression index of `hir` names an expression of the body.
pub fn hir_is_wf(hir: &HirBody) -> (r: bool)
    ensures
        r == hir_wf(hir),
{
    let n = hir.exprs.len();
    let mut k: usize = 0;
    while k < n
        invariant
            n == hir.exprs@.len(),
            k <= n,
            forall|j: int|
                0 <= j < k ==> match #[trigger] hir.exprs@[j].kind {
                    HirExprKind::Assign(l, r) => l < hir.exprs@.len() && r < hir.exprs@.len(),
                    HirExprKind::Call(args) => forall|i: int|
                        0 <= i < args@.len() ==> #[trigger] args@[i] < hir.exprs@.len(),
                    HirExprKind::MethodCall(args) => forall|i: int|
                        0 <= i < args@.len() ==> #[trigger] args@[i] < hir.exprs@.len(),
                    HirExprKind::Other => true,
                },
        decreases n - k,
    {
        let ok = match &hir.exprs[k].kind {
            HirExprKind::Assign(l, r) => *l < n && *r < n,
            HirExprKind::Call(args) | HirExprKind::MethodCall(args) => indices_below(args, n),
            HirExprKind::Other => true,
        };
        if !ok {
            return false;
        }
        k = k + 1;
    }
    true
}

/// This part of this instruction came from this expression.
pub type OriginRecord = (Location, Seq<SubLoc>, MirOrigin);

/// A second origin met for a key that already had a different one, which was kept.
#[derive(Clone, PartialEq, Eq, Debug)]
pub struct OriginConflict {
    pub loc: Location,
    pub sub_loc: Vec<SubLoc>,
    pub kept: MirOrigin,
    pub rejected: MirOrigin,
}

pub open spec fn conflict_view(c: OriginConflict) -> (Location, Seq<SubLoc>, MirOrigin, MirOrigin) {
    (c.loc, c.sub_loc@, c.kept, c.rejected)
}

/// Bookkeeping statements that carry no part of an expression.
pub open spec fn spec_should_ignore(body: &Body, loc: Location) -> bool {
    match spec_stmt_at(body, loc) {
        Some(s) => s.kind is FakeRead || s.kind is StorageLive || s.kind is StorageDead
            || s.kind is Nop,
        None => false,
    }
}

/// The locations among the first `n` entries that carry `span` and are not bookkeeping.
pub open spec fn lookup_locs(
    body: &Body,
    entries: Seq<(Span, Location)>,
    span: Span,
    n: nat,
) -> Seq<Location>
    decreases n,
{
    if n == 0 {
        Seq::empty()
    } else {
        let prev = lookup_locs(body, entries, span, (n - 1) as nat);
        let e = entries[n - 1];
        if e.0 == span && !spec_should_ignore(body, e.1) {
            prev.push(e.1)
        } else {
            prev
        }
    }
}

/// The instructions, in program order, that were lowered from an expression at `span`.
pub open spec fn matching_locs(body: &Body, span: Span) -> Seq<Location> {
    let entries = body_entries(body, body.basic_blocks@.len());
    lookup_locs(body, entries, span, entries.len())
}

pub open spec fn origin_of(ex: HirExpr, desc: MirOriginDesc) -> MirOrigin {
    MirOrigin { hir_id: ex.hir_id, span: ex.span, desc }
}

/// The records of the first `n` arguments of a call at `loc`.
pub open spec fn call_arg_records(hir: &HirBody, args: Seq<usize>, loc: Location, n: nat) -> Seq<
    OriginRecord,
>
    decreases n,
{
    if n == 0 {
        Seq::empty()
    } else {
        call_arg_records(hir, args, loc, (n - 1) as nat).push(
            (
                loc,
                seq![SubLoc::AssignRvalue, SubLoc::CallArg((n - 1) as usize)],
                origin_of(hir.exprs@[args[n - 1] as int], MirOriginDesc::Expr),
            ),
        )
    }
}

/// A call expression: the last of its instructions must be a call storing into a local.
pub open spec fn call_records(body: &Body, hir: &HirBody, k: int, args: Seq<usize>) -> Seq<
    OriginRecord,
> {
    let ex = hir.exprs@[k];
    let locs = matching_locs(body, ex.span);
    let loc = locs.last();
    match spec_term_at(body, loc) {
        Some(t) => match t.kind {
            TerminatorKind::Call { args: mir_args, destination, .. } => if destination.projection_len
                == 0 {
                let n = if args.len() < mir_args@.len() {
                    args.len()
                } else {
                    mir_args@.len()
                };
                seq![
                    (loc, Seq::empty(), origin_of(ex, MirOriginDesc::StoreIntoLocal)),
                    (loc, seq![SubLoc::AssignRvalue], origin_of(ex, MirOriginDesc::Expr)),
                ] + call_arg_records(hir, args, loc, n)
            } else {
                Seq::empty()
            },
            _ => Seq::empty(),
        },
        None => Seq::empty(),
    }
}

/// What expression `k` contributes to the map; nothing when its instructions do not have
/// the shape its syntax calls for.
pub open spec fn expr_records(body: &Body, hir: &HirBody, k: int) -> Seq<OriginRecord> {
    let ex = hir.exprs@[k];
    let locs = matching_locs(body, ex.span);
    if locs.len() == 0 {
        Seq::empty()
    } else {
        match ex.kind {
            HirExprKind::Assign(lhs, rhs) => if locs.len() == 1 && match spec_stmt_at(
                body,
                locs[0],
            ) {
                Some(s) => s.kind is Assign,
                None => false,
            } {
                seq![
                    (locs[0], Seq::empty(), origin_of(ex, MirOriginDesc::Expr)),
                    (
                        locs[0],
                        seq![SubLoc::Dest],
                        origin_of(hir.exprs@[lhs as int], MirOriginDesc::Expr),
                    ),
                    (
                        locs[0],
                        seq![SubLoc::AssignRvalue],
                        origin_of(hir.exprs@[rhs as int], MirOriginDesc::Expr),
                    ),
                ]
            } else {
                Seq::empty()
            },
            HirExprKind::Call(args) => call_records(body, hir, k, args@),
            HirExprKind::MethodCall(args) => call_records(body, hir, k, args@),
            HirExprKind::Other => {
                let loc = locs.last();
                match spec_stmt_at(body, loc) {
                    Some(s) => match s.kind {
                        StatementKind::Assign { dest, .. } => if dest.projection_len == 0 {
                            seq![
                                (loc, Seq::empty(), origin_of(ex, MirOriginDesc::StoreIntoLocal)),
                                (loc, seq![SubLoc::AssignRvalue], origin_of(ex, MirOriginDesc::Expr)),
                            ]
                        } else {
                            Seq::empty()
                        },
                        _ => Seq::empty(),
                    },
                    None => Seq::empty(),
                }
            },
        }
    }
}

/// The map and conflicts after applying the first `n` records to `state`: the first origin
/// recorded for a key is kept, and a later different one is a conflict.
pub open spec fn apply_records(
    state: (Map<(Location, Seq<SubLoc>), MirOrigin>, Seq<(Location, Seq<SubLoc>, MirOrigin, MirOrigin)>),
    recs: Seq<OriginRecord>,
    n: nat,
) -> (Map<(Location, Seq<SubLoc>), MirOrigin>, Seq<(Location, Seq<SubLoc>, MirOrigin, MirOrigin)>)
    decreases n,
{
    if n == 0 {
        state
    } else {
        let (m, c) = apply_records(state, recs, (n - 1) as nat);
        let r = recs[n - 1];
        let key = (r.0, r.1);
        if m.contains_key(key) {
            (m, if m[key] != r.2 {
                c.push((r.0, r.1, m[key], r.2))
            } else {
                c
            })
        } else {
            (m.insert(key, r.2), c)
        }
    }
}

/// The map and conflicts after visiting the first `k` expressions.
pub open spec fn unlower_state(body: &Body, hir: &HirBody, k: nat) -> (
    Map<(Location, Seq<SubLoc>), MirOrigin>,
    Seq<(Location, Seq<SubLoc>, MirOrigin, MirOrigin)>,
)
    decreases k,
{
    if k == 0 {
        (Map::empty(), Seq::empty())
    } else {
        let recs = expr_records(body, hir, k - 1);
        apply_records(unlower_state(body, hir, (k - 1) as nat), recs, recs.len())
    }
}

} // verus!

verus! {

fn same_path(a: &Vec<SubLoc>, b: &Vec<SubLoc>) -> (r: bool)
    ensures
        r == (a@ == b@),
{
    if a.len() != b.len() {
        return false;
    }
    let mut i: usize = 0;
    while i < a.len()
        invariant
            a@.len() == b@.len(),
            i <= a@.len(),
            forall|j: int| 0 <= j < i ==> a@[j] == b@[j],
        decreases a@.len() - i,
    {
        if a[i] != b[i] {
            return false;
        }
        i = i + 1;
    }
    assert(a@ =~= b@);
    true
}

/// A map from instruction parts to origins, in which the first origin recorded for a key
/// stays.
pub struct MirMap {
    entries: Vec<(Location, Vec<SubLoc>, MirOrigin)>,
    map: Ghost<Map<(Location, Seq<SubLoc>), MirOrigin>>,
}

impl MirMap {
    pub closed spec fn view(&self) -> Map<(Location, Seq<SubLoc>), MirOrigin> {
        self.map@
    }

    pub closed spec fn wf(&self) -> bool {
        &&& forall|i: int|
            0 <= i < self.entries@.len() ==> #[trigger] self.map@.contains_key(
                (self.entries@[i].0, self.entries@[i].1@),
            ) && self.map@[(self.entries@[i].0, self.entries@[i].1@)] == self.entries@[i].2
        &&& forall|k: (Location, Seq<SubLoc>)| #[trigger]
            self.map@.contains_key(k) ==> exists|i: int|
                0 <= i < self.entries@.len() && k == (
                    #[trigger] self.entries@[i].0,
                    self.entries@[i].1@,
                )
    }

    pub fn new() -> (r: MirMap)
        ensures
            r.wf(),
            r.view() == Map::<(Location, Seq<SubLoc>), MirOrigin>::empty(),
    {
        MirMap { entries: Vec::new(), map: Ghost(Map::empty()) }
    }

    /// The entries, in the order they were first recorded.
    pub fn entries(&self) -> (r: &Vec<(Location, Vec<SubLoc>, MirOrigin)>)
        requires
            self.wf(),
        ensures
            forall|i: int|
                #![trigger r@[i]]
                0 <= i < r@.len() ==> self.view().contains_key((r@[i].0, r@[i].1@))
                    && self.view()[(r@[i].0, r@[i].1@)] == r@[i].2,
            forall|k: (Location, Seq<SubLoc>)| #[trigger]
                self.view().contains_key(k) ==> exists|i: int|
                    0 <= i < r@.len() && k == (#[trigger] r@[i].0, r@[i].1@),
    {
        let r = &self.entries;
        assert forall|i: int| #![trigger r@[i]] 0 <= i < r@.len() implies self.view().contains_key(
            (r@[i].0, r@[i].1@),
        ) && self.view()[(r@[i].0, r@[i].1@)] == r@[i].2 by {
            assert(self.map@.contains_key((self.entries@[i].0, self.entries@[i].1@)));
        }
        r
    }

    /// The origin recorded for `sub_loc` of the instruction at `loc`.
    pub fn get(&self, loc: Location, sub_loc: &Vec<SubLoc>) -> (r: Option<MirOrigin>)
        requires
            self.wf(),
        ensures
            r == (if self.view().contains_key((loc, sub_loc@)) {
                Some(self.view()[(loc, sub_loc@)])
            } else {
                None
            }),
    {
        let mut i: usize = 0;
        while i < self.entries.len()
            invariant
                i <= self.entries@.len(),
                self.wf(),
                forall|j: int|
                    0 <= j < i ==> (#[trigger] self.entries@[j].0, self.entries@[j].1@) != (
                        loc,
                        sub_loc@,
                    ),
            decreases self.entries@.len() - i,
        {
            if self.entries[i].0 == loc && same_path(&self.entries[i].1, sub_loc) {
                return Some(self.entries[i].2);
            }
            i = i + 1;
        }
        None
    }

    /// Records `origin` for `sub_loc` of the instruction at `loc`, unless the key already
    /// has an origin; a different one already there is reported as a conflict.
    pub fn record(&mut self, loc: Location, sub_loc: Vec<SubLoc>, origin: MirOrigin) -> (r: Option<
        OriginConflict,
    >)
        requires
            old(self).wf(),
        ensures
            final(self).wf(),
            old(self).view().contains_key((loc, sub_loc@)) ==> {
                &&& final(self).view() == old(self).view()
                &&& if old(self).view()[(loc, sub_loc@)] != origin {
                    r is Some && conflict_view(r->0) == (
                        loc,
                        sub_loc@,
                        old(self).view()[(loc, sub_loc@)],
                        origin,
                    )
                } else {
                    r is None
                }
            },
            !old(self).view().contains_key((loc, sub_loc@)) ==> {
                &&& final(self).view() == old(self).view().insert((loc, sub_loc@), origin)
                &&& r is None
            },
    {
        match self.get(loc, &sub_loc) {
            Some(kept) => {
                if kept != origin {
                    Some(OriginConflict { loc, sub_loc, kept, rejected: origin })
                } else {
                    None
                }
            },
            None => {
                let ghost key = (loc, sub_loc@);
                let ghost old_entries = self.entries@;
                self.entries.push((loc, sub_loc, origin));
                self.map = Ghost(self.map@.insert(key, origin));
                assert forall|k: (Location, Seq<SubLoc>)| #[trigger]
                    self.map@.contains_key(k) implies exists|i: int|
                        0 <= i < self.entries@.len() && k == (
                            #[trigger] self.entries@[i].0,
                            self.entries@[i].1@,
                        ) by {
                    if k == key {
                        assert(self.entries@[old_entries.len() as int].0 == key.0);
                    } else {
                        let i = choose|i: int|
                            0 <= i < old_entries.len() && k == (
                                #[trigger] old_entries[i].0,
                                old_entries[i].1@,
                            );
                        assert(self.entries@[i] == old_entries[i]);
                    }
                }
                None
            },
        }
    }
}

} // verus!

verus! {

pub open spec fn records_view(s: Seq<(Location, Vec<SubLoc>, MirOrigin)>) -> Seq<OriginRecord> {
    s.map_values(|r: (Location, Vec<SubLoc>, MirOrigin)| (r.0, r.1@, r.2))
}

pub open spec fn conflicts_view(s: Seq<OriginConflict>) -> Seq<(Location, Seq<SubLoc>, MirOrigin, MirOrigin)> {
    s.map_values(|c: OriginConflict| conflict_view(c))
}

fn should_ignore_statement(mir: &Body, loc: Location) -> (r: bool)
    ensures
        r == spec_should_ignore(mir, loc),
{
    match mir.stmt_at(loc) {
        Some(stmt) => match stmt.kind {
            StatementKind::FakeRead | StatementKind::StorageLive | StatementKind::StorageDead
            | StatementKind::Nop => true,
            _ => false,
        },
        None => false,
    }
}

/// The instructions lowered from an expression at `span`, bookkeeping left out.
fn lookup_exact(mir: &Body, index: &SpanIndex, span: Span) -> (r: Vec<Location>)
    requires
        index.indexes(mir),
    ensures
        r@ == matching_locs(mir, span),
{
    let mut r: Vec<Location> = Vec::new();
    let mut i: usize = 0;
    while i < index.entries.len()
        invariant
            i <= index.entries@.len(),
            r@ == lookup_locs(mir, index.entries@, span, i as nat),
        decreases index.entries@.len() - i,
    {
        let (s, loc) = index.entries[i];
        if s == span && !should_ignore_statement(mir, loc) {
            r.push(loc);
        }
        i = i + 1;
    }
    r
}

fn path1(a: SubLoc) -> (r: Vec<SubLoc>)
    ensures
        r@ == seq![a],
{
    let mut r = Vec::new();
    r.push(a);
    assert(r@ =~= seq![a]);
    r
}

fn path2(a: SubLoc, b: SubLoc) -> (r: Vec<SubLoc>)
    ensures
        r@ == seq![a, b],
{
    let mut r = Vec::new();
    r.push(a);
    r.push(b);
    assert(r@ =~= seq![a, b]);
    r
}

fn origin(ex: &HirExpr, desc: MirOriginDesc) -> (r: MirOrigin)
    ensures
        r == origin_of(*ex, desc),
{
    MirOrigin { hir_id: ex.hir_id, span: ex.span, desc }
}

/// The last of `locs`, with its destination, if it is an assignment.
pub open spec fn spec_last_assign(body: &Body, locs: Seq<Location>) -> Option<(Location, Place)> {
    if locs.len() == 0 {
        None
    } else {
        match spec_stmt_at(body, locs.last()) {
            Some(s) => match s.kind {
                StatementKind::Assign { dest, .. } => Some((locs.last(), dest)),
                _ => None,
            },
            None => None,
        }
    }
}

/// The last of `locs`, with its destination and number of arguments, if it is a call.
pub open spec fn spec_last_call(body: &Body, locs: Seq<Location>) -> Option<(Location, Place, nat)> {
    if locs.len() == 0 {
        None
    } else {
        match spec_term_at(body, locs.last()) {
            Some(t) => match t.kind {
                TerminatorKind::Call { args, destination, .. } => Some(
                    (locs.last(), destination, args@.len()),
                ),
                _ => None,
            },
            None => None,
        }
    }
}

fn get_last_assign(mir: &Body, locs: &Vec<Location>) -> (r: Option<(Location, Place)>)
    ensures
        r == spec_last_assign(mir, locs@),
{
    if locs.len() == 0 {
        return None;
    }
    let loc = locs[locs.len() - 1];
    match mir.stmt_at(loc) {
        Some(stmt) => match &stmt.kind {
            StatementKind::Assign { dest, .. } => Some((loc, *dest)),
            _ => None,
        },
        None => None,
    }
}

/// Like `get_last_assign`, but only when the assignment is the sole instruction.
fn get_sole_assign(mir: &Body, locs: &Vec<Location>) -> (r: Option<(Location, Place)>)
    ensures
        r == if locs@.len() == 1 {
            spec_last_assign(mir, locs@)
        } else {
            None
        },
{
    if locs.len() != 1 {
        return None;
    }
    get_last_assign(mir, locs)
}

fn get_last_call(mir: &Body, locs: &Vec<Location>) -> (r: Option<(Location, Place, usize)>)
    ensures
        match r {
            Some((l, pl, n)) => spec_last_call(mir, locs@) == Some((l, pl, n as nat)),
            None => spec_last_call(mir, locs@) is None,
        },
{
    if locs.len() == 0 {
        return None;
    }
    let loc = locs[locs.len() - 1];
    match mir.term_at(loc) {
        Some(term) => match &term.kind {
            TerminatorKind::Call { args, destination, .. } => Some((loc, *destination, args.len())),
            _ => None,
        },
        None => None,
    }
}

/// A place that is a plain local, with no projection.
fn is_var(pl: &Place) -> (r: bool)
    ensures
        r == (pl.projection_len == 0),
{
    pl.projection_len == 0
}

/// The records of a call expression whose instructions are `locs`.
fn call_records_exec(mir: &Body, hir: &HirBody, k: usize, args: &Vec<usize>, locs: &Vec<Location>) -> (r: Vec<
    (Location, Vec<SubLoc>, MirOrigin),
>)
    requires
        hir_wf(hir),
        k < hir.exprs@.len(),
        hir.exprs@[k as int].kind == HirExprKind::Call(*args) || hir.exprs@[k as int].kind
            == HirExprKind::MethodCall(*args),
        locs@ == matching_locs(mir, hir.exprs@[k as int].span),
        locs@.len() > 0,
    ensures
        records_view(r@) == call_records(mir, hir, k as int, args@),
{
    let ex = &hir.exprs[k];
    proof {
        let kind = hir.exprs@[k as int].kind;
        match kind {
            HirExprKind::Call(a) => {
                assert(a == *args);
            },
            HirExprKind::MethodCall(a) => {
                assert(a == *args);
            },
            _ => {},
        }
        assert(forall|i: int| 0 <= i < args@.len() ==> #[trigger] args@[i] < hir.exprs@.len());
    }
    let mut r: Vec<(Location, Vec<SubLoc>, MirOrigin)> = Vec::new();
    match get_last_call(mir, locs) {
        Some((loc, destination, n_mir_args)) if is_var(&destination) => {
            r.push((loc, Vec::new(), origin(ex, MirOriginDesc::StoreIntoLocal)));
            r.push((loc, path1(SubLoc::AssignRvalue), origin(ex, MirOriginDesc::Expr)));
            // Source arguments pair with the call's operands by position.
            let n = if args.len() < n_mir_args {
                args.len()
            } else {
                n_mir_args
            };
            let ghost head = records_view(r@);
            let mut i: usize = 0;
            while i < n
                invariant
                    i <= n,
                    n <= args@.len(),
                    forall|j: int| 0 <= j < args@.len() ==> #[trigger] args@[j] < hir.exprs@.len(),
                    records_view(r@) == head + call_arg_records(hir, args@, loc, i as nat),
                decreases n - i,
            {
                let arg = &hir.exprs[args[i]];
                let ghost before = r@;
                let rec = (loc, path2(SubLoc::AssignRvalue, SubLoc::CallArg(i)), origin(arg, MirOriginDesc::Expr));
                r.push(rec);
                assert(records_view(r@) =~= records_view(before).push((rec.0, rec.1@, rec.2)));
                i = i + 1;
                assert(records_view(r@) =~= head + call_arg_records(hir, args@, loc, i as nat));
            }
            assert(records_view(r@) =~= call_records(mir, hir, k as int, args@));
            r
        },
        _ => {
            // The call must be last, and store into a plain local.
            assert(records_view(r@) =~= call_records(mir, hir, k as int, args@));
            r
        },
    }
}

/// The records that expression `k`, lowered to `locs`, contributes.
fn visit_expr_inner(mir: &Body, hir: &HirBody, k: usize, locs: &Vec<Location>) -> (r: Vec<
    (Location, Vec<SubLoc>, MirOrigin),
>)
    requires
        hir_wf(hir),
        k < hir.exprs@.len(),
        locs@ == matching_locs(mir, hir.exprs@[k as int].span),
    ensures
        records_view(r@) == expr_records(mir, hir, k as int),
{
    let ex = &hir.exprs[k];
    let mut r: Vec<(Location, Vec<SubLoc>, MirOrigin)> = Vec::new();
    if locs.len() == 0 {
        assert(records_view(r@) =~= expr_records(mir, hir, k as int));
        return r;
    }
    assert(hir_wf(hir) && 0 <= k < hir.exprs@.len());
    match &ex.kind {
        HirExprKind::Assign(lhs, rhs) => {
            // The assignment must be the whole of the expression.
            if let Some((loc, _)) = get_sole_assign(mir, locs) {
                r.push((loc, Vec::new(), origin(ex, MirOriginDesc::Expr)));
                r.push((loc, path1(SubLoc::Dest), origin(&hir.exprs[*lhs], MirOriginDesc::Expr)));
                r.push((loc, path1(SubLoc::AssignRvalue), origin(&hir.exprs[*rhs], MirOriginDesc::Expr)));
            }
            assert(records_view(r@) =~= expr_records(mir, hir, k as int));
            r
        },
        HirExprKind::Call(args) | HirExprKind::MethodCall(args) => {
            call_records_exec(mir, hir, k, args, locs)
        },
        HirExprKind::Other => {
            // The last instruction must store the result into a plain local.
            if let Some((loc, dest)) = get_last_assign(mir, locs) {
                if is_var(&dest) {
                    r.push((loc, Vec::new(), origin(ex, MirOriginDesc::StoreIntoLocal)));
                    r.push((loc, path1(SubLoc::AssignRvalue), origin(ex, MirOriginDesc::Expr)));
                }
            }
            assert(records_view(r@) =~= expr_records(mir, hir, k as int));
            r
        },
    }
}

/// Expression `k` was lowered to some instructions, but not of the shape its syntax calls
/// for, so it contributes nothing.
pub open spec fn is_mismatch(body: &Body, hir: &HirBody, k: int) -> bool {
    matching_locs(body, hir.exprs@[k].span).len() > 0 && expr_records(body, hir, k).len() == 0
}

/// The mismatched expressions among the first `n`, in order.
pub open spec fn mismatches(body: &Body, hir: &HirBody, n: nat) -> Seq<usize>
    decreases n,
{
    if n == 0 {
        Seq::empty()
    } else if is_mismatch(body, hir, n - 1) {
        mismatches(body, hir, (n - 1) as nat).push((n - 1) as usize)
    } else {
        mismatches(body, hir, (n - 1) as nat)
    }
}

/// Expression `k` was recorded from its last instruction, and has earlier ones that are
/// not decomposed.
pub open spec fn has_auxiliary(body: &Body, hir: &HirBody, k: int) -> bool {
    matching_locs(body, hir.exprs@[k].span).len() > 1 && expr_records(body, hir, k).len() > 0
}

/// For each of the first `n` expressions that has them, its undecomposed instructions.
pub open spec fn auxiliary_locs(body: &Body, hir: &HirBody, n: nat) -> Seq<(usize, Seq<Location>)>
    decreases n,
{
    if n == 0 {
        Seq::empty()
    } else if has_auxiliary(body, hir, n - 1) {
        auxiliary_locs(body, hir, (n - 1) as nat).push(
            ((n - 1) as usize, matching_locs(body, hir.exprs@[n - 1].span).drop_last()),
        )
    } else {
        auxiliary_locs(body, hir, (n - 1) as nat)
    }
}

pub open spec fn auxiliary_view(s: Seq<(usize, Vec<Location>)>) -> Seq<(usize, Seq<Location>)> {
    s.map_values(|a: (usize, Vec<Location>)| (a.0, a.1@))
}

fn all_but_last(locs: &Vec<Location>) -> (r: Vec<Location>)
    requires
        locs@.len() > 0,
    ensures
        r@ == locs@.drop_last(),
{
    let mut r: Vec<Location> = Vec::new();
    let mut i: usize = 0;
    while i < locs.len() - 1
        invariant
            locs@.len() > 0,
            i <= locs@.len() - 1,
            r@ == locs@.subrange(0, i as int),
        decreases locs@.len() - 1 - i,
    {
        r.push(locs[i]);
        i = i + 1;
        assert(r@ =~= locs@.subrange(0, i as int));
    }
    assert(r@ =~= locs@.drop_last());
    r
}

/// The unlowering map of a body, with the conflicts met while building it, the expressions
/// whose instructions did not have the expected shape, and the instructions before the last
/// of each recorded expression, which are not decomposed.
pub struct Unlowering {
    pub map: MirMap,
    pub conflicts: Vec<OriginConflict>,
    pub mismatched: Vec<usize>,
    pub auxiliary: Vec<(usize, Vec<Location>)>,
}

/// Builds the unlowering map of `mir` from the expressions of `hir`, visited in order.  An
/// expression whose instructions do not have the shape its syntax calls for contributes
/// nothing; a key recorded twice with different origins keeps the first and reports a
/// conflict.
pub fn unlower(mir: &Body, hir: &HirBody) -> (r: Unlowering)
    requires
        hir_wf(hir),
    ensures
        r.map.wf(),
        r.map.view() == unlower_state(mir, hir, hir.exprs@.len()).0,
        conflicts_view(r.conflicts@) == unlower_state(mir, hir, hir.exprs@.len()).1,
        r.mismatched@ == mismatches(mir, hir, hir.exprs@.len()),
        auxiliary_view(r.auxiliary@) == auxiliary_locs(mir, hir, hir.exprs@.len()),
{
    let span_index = build_span_index(mir);
    let mut map = MirMap::new();
    let mut conflicts: Vec<OriginConflict> = Vec::new();
    let mut mismatched: Vec<usize> = Vec::new();
    let mut auxiliary: Vec<(usize, Vec<Location>)> = Vec::new();
    let mut k: usize = 0;
    assert(auxiliary_view(auxiliary@) =~= auxiliary_locs(mir, hir, 0));
    assert(conflicts_view(conflicts@) =~= unlower_state(mir, hir, 0).1);
    while k < hir.exprs.len()
        invariant
            k <= hir.exprs@.len(),
            hir_wf(hir),
            span_index.indexes(mir),
            map.wf(),
            map.view() == unlower_state(mir, hir, k as nat).0,
            conflicts_view(conflicts@) == unlower_state(mir, hir, k as nat).1,
            mismatched@ == mismatches(mir, hir, k as nat),
            auxiliary_view(auxiliary@) == auxiliary_locs(mir, hir, k as nat),
        decreases hir.exprs@.len() - k,
    {
        let locs = lookup_exact(mir, &span_index, hir.exprs[k].span);
        let recs = visit_expr_inner(mir, hir, k, &locs);
        if locs.len() > 0 && recs.len() == 0 {
            mismatched.push(k);
        }
        if locs.len() > 1 && recs.len() > 0 {
            let extra = all_but_last(&locs);
            let ghost before = auxiliary@;
            auxiliary.push((k, extra));
            assert(auxiliary_view(auxiliary@) =~= auxiliary_view(before).push((k, extra@)));
        }
        let ghost start = unlower_state(mir, hir, k as nat);
        let mut j: usize = 0;
        while j < recs.len()
            invariant
                j <= recs@.len(),
                records_view(recs@) == expr_records(mir, hir, k as int),
                map.wf(),
                (map.view(), conflicts_view(conflicts@)) == apply_records(
                    start,
                    records_view(recs@),
                    j as nat,
                ),
            decreases recs@.len() - j,
        {
            let (loc, ref path, o) = recs[j];
            let path = path.clone();
            assert(path@ =~= recs@[j as int].1@);
            if let Some(c) = map.record(loc, path, o) {
                conflicts.push(c);
            }
            j = j + 1;
            assert(conflicts_view(conflicts@) =~= apply_records(start, records_view(recs@), j as nat).1);
        }
        k = k + 1;
    }
    Unlowering { map, conflicts, mismatched, auxiliary }
}

} // verus!

verus! {

/// The span of the instruction at `loc`, if there is one.
pub open spec fn loc_span(body: &Body, loc: Location) -> Option<Span> {
    match spec_stmt_at(body, loc) {
        Some(s) => Some(s.span),
        None => match spec_term_at(body, loc) {
            Some(t) => Some(t.span),
            None => None,
        },
    }
}

pub open spec fn entries_carry_spans(body: &Body, entries: Seq<(Span, Location)>) -> bool {
    forall|i: int| 0 <= i < entries.len() ==> loc_span(body, #[trigger] entries[i].1) == Some(entries[i].0)
}

proof fn lemma_block_entries_spans(body: &Body, b: int, n: nat)
    requires
        0 <= b < body.basic_blocks@.len(),
        n <= block_len(body, b),
    ensures
        block_entries(body, b, n).len() == n,
        entries_carry_spans(body, block_entries(body, b, n)),
    decreases n,
{
    if n > 0 {
        lemma_block_entries_spans(body, b, (n - 1) as nat);
        let prev = block_entries(body, b, (n - 1) as nat);
        let cur = block_entries(body, b, n);
        let bb = body.basic_blocks@[b];
        assert(body.basic_blocks.len() == body.basic_blocks@.len());
        assert(bb.statements.len() == bb.statements@.len());
        let l = Location { block: b as usize, statement_index: (n - 1) as usize };
        assert(l.block == b && l.statement_index == n - 1);
        if n - 1 < bb.statements@.len() {
            assert(spec_stmt_at(body, l) == Some(bb.statements@[n - 1]));
        } else {
            assert(spec_stmt_at(body, l) is None);
            assert(spec_term_at(body, l) == bb.terminator);
        }
        assert(cur[n - 1] == (instr_span(body, b, n - 1), l));
        assert forall|i: int| 0 <= i < cur.len() implies loc_span(body, #[trigger] cur[i].1) == Some(cur[i].0) by {
            if i < prev.len() {
                assert(cur[i] == prev[i]);
            }
        }
    }
}

proof fn lemma_body_entries_spans(body: &Body, nb: nat)
    requires
        nb <= body.basic_blocks@.len(),
    ensures
        entries_carry_spans(body, body_entries(body, nb)),
    decreases nb,
{
    if nb > 0 {
        lemma_body_entries_spans(body, (nb - 1) as nat);
        lemma_block_entries_spans(body, nb - 1, block_len(body, nb - 1));
        let a = body_entries(body, (nb - 1) as nat);
        let b = block_entries(body, nb - 1, block_len(body, nb - 1));
        assert forall|i: int| 0 <= i < (a + b).len() implies loc_span(body, #[trigger] (a + b)[i].1) == Some(
            (a + b)[i].0,
        ) by {
            if i < a.len() {
                assert((a + b)[i] == a[i]);
            } else {
                assert((a + b)[i] == b[i - a.len()]);
            }
        }
    }
}

proof fn lemma_lookup_spans(body: &Body, entries: Seq<(Span, Location)>, span: Span, n: nat)
    requires
        n <= entries.len(),
        entries_carry_spans(body, entries),
    ensures
        forall|i: int|
            0 <= i < lookup_locs(body, entries, span, n).len() ==> loc_span(
                body,
                #[trigger] lookup_locs(body, entries, span, n)[i],
            ) == Some(span),
    decreases n,
{
    if n > 0 {
        lemma_lookup_spans(body, entries, span, (n - 1) as nat);
        let prev = lookup_locs(body, entries, span, (n - 1) as nat);
        let cur = lookup_locs(body, entries, span, n);
        assert forall|i: int| 0 <= i < cur.len() implies loc_span(body, #[trigger] cur[i]) == Some(span) by {
            if i < prev.len() {
                assert(cur[i] == prev[i]);
            } else {
                assert(entries_carry_spans(body, entries));
                assert(loc_span(body, entries[n - 1].1) == Some(entries[n - 1].0));
            }
        }
    }
}

proof fn lemma_matching_spans(body: &Body, span: Span)
    ensures
        forall|i: int|
            0 <= i < matching_locs(body, span).len() ==> loc_span(
                body,
                #[trigger] matching_locs(body, span)[i],
            ) == Some(span),
{
    let entries = body_entries(body, body.basic_blocks@.len());
    lemma_body_entries_spans(body, body.basic_blocks@.len());
    lemma_lookup_spans(body, entries, span, entries.len());
}

proof fn lemma_call_arg_records(hir: &HirBody, args: Seq<usize>, loc: Location, n: nat)
    ensures
        call_arg_records(hir, args, loc, n).len() == n,
        forall|i: int|
            0 <= i < n ==> (#[trigger] call_arg_records(hir, args, loc, n)[i]).0 == loc
                && call_arg_records(hir, args, loc, n)[i].1 == seq![
                SubLoc::AssignRvalue,
                SubLoc::CallArg(i as usize),
            ],
    decreases n,
{
    if n > 0 {
        lemma_call_arg_records(hir, args, loc, (n - 1) as nat);
        let prev = call_arg_records(hir, args, loc, (n - 1) as nat);
        let cur = call_arg_records(hir, args, loc, n);
        assert forall|i: int| 0 <= i < n implies (#[trigger] cur[i]).0 == loc && cur[i].1 == seq![
            SubLoc::AssignRvalue,
            SubLoc::CallArg(i as usize),
        ] by {
            if i < n - 1 {
                assert(cur[i] == prev[i]);
            }
        }
    }
}

pub open spec fn record_key(r: OriginRecord) -> (Location, Seq<SubLoc>) {
    (r.0, r.1)
}

/// The records of one expression lie at instructions of its span, under distinct keys.
proof fn lemma_expr_records(body: &Body, hir: &HirBody, k: int)
    requires
        0 <= k < hir.exprs@.len(),
    ensures
        forall|i: int|
            0 <= i < expr_records(body, hir, k).len() ==> loc_span(
                body,
                (#[trigger] expr_records(body, hir, k)[i]).0,
            ) == Some(hir.exprs@[k].span),
        forall|i: int, j: int|
            0 <= i < j < expr_records(body, hir, k).len() ==> record_key(
                #[trigger] expr_records(body, hir, k)[i],
            ) != record_key(#[trigger] expr_records(body, hir, k)[j]),
{
    let ex = hir.exprs@[k];
    let locs = matching_locs(body, ex.span);
    let recs = expr_records(body, hir, k);
    lemma_matching_spans(body, ex.span);
    if locs.len() > 0 {
        assert(loc_span(body, locs[locs.len() - 1]) == Some(ex.span));
        assert(loc_span(body, locs[0]) == Some(ex.span));
        match ex.kind {
            HirExprKind::Call(args) => {
                lemma_call_records(body, hir, k, args@);
            },
            HirExprKind::MethodCall(args) => {
                lemma_call_records(body, hir, k, args@);
            },
            _ => {
                assert forall|i: int, j: int| 0 <= i < j < recs.len() implies record_key(
                    #[trigger] recs[i],
                ) != record_key(#[trigger] recs[j]) by {
                    assert(recs.len() <= 3);
                    assert(recs[0].1.len() == 0);
                    assert(recs[1].1.len() == 1);
                    if recs.len() == 3 {
                        assert(recs[1].1[0] == SubLoc::Dest);
                        assert(recs[2].1[0] == SubLoc::AssignRvalue);
                        assert(recs[2].1.len() == 1);
                    }
                }
            },
        }
    }
}

proof fn lemma_call_records(body: &Body, hir: &HirBody, k: int, args: Seq<usize>)
    requires
        0 <= k < hir.exprs@.len(),
        matching_locs(body, hir.exprs@[k].span).len() > 0,
        loc_span(body, matching_locs(body, hir.exprs@[k].span).last()) == Some(hir.exprs@[k].span),
    ensures
        forall|i: int|
            0 <= i < call_records(body, hir, k, args).len() ==> loc_span(
                body,
                (#[trigger] call_records(body, hir, k, args)[i]).0,
            ) == Some(hir.exprs@[k].span),
        forall|i: int, j: int|
            0 <= i < j < call_records(body, hir, k, args).len() ==> record_key(
                #[trigger] call_records(body, hir, k, args)[i],
            ) != record_key(#[trigger] call_records(body, hir, k, args)[j]),
{
    let ex = hir.exprs@[k];
    let loc = matching_locs(body, ex.span).last();
    let recs = call_records(body, hir, k, args);
    match spec_term_at(body, loc) {
        Some(t) => match t.kind {
            TerminatorKind::Call { args: mir_args, destination, .. } => if destination.projection_len
                == 0 {
                let n = if args.len() < mir_args@.len() {
                    args.len()
                } else {
                    mir_args@.len()
                };
                assert(mir_args.len() == mir_args@.len());
                let head = seq![
                    (loc, Seq::<SubLoc>::empty(), origin_of(ex, MirOriginDesc::StoreIntoLocal)),
                    (loc, seq![SubLoc::AssignRvalue], origin_of(ex, MirOriginDesc::Expr)),
                ];
                let tail = call_arg_records(hir, args, loc, n);
                lemma_call_arg_records(hir, args, loc, n);
                assert(recs == head + tail);
                assert forall|i: int| 0 <= i < recs.len() implies loc_span(body, (#[trigger] recs[i]).0)
                    == Some(ex.span) by {
                    if i >= 2 {
                        assert(recs[i] == tail[i - 2]);
                    }
                }
                assert forall|i: int, j: int| 0 <= i < j < recs.len() implies record_key(
                    #[trigger] recs[i],
                ) != record_key(#[trigger] recs[j]) by {
                    if j >= 2 {
                        assert(recs[j] == tail[j - 2]);
                        assert(recs[j].1.len() == 2);
                        if i >= 2 {
                            assert(recs[i] == tail[i - 2]);
                            assert(recs[i].1[1] == SubLoc::CallArg((i - 2) as usize));
                            assert(recs[j].1[1] == SubLoc::CallArg((j - 2) as usize));
                            assert(recs[i].1[1] != recs[j].1[1]);
                        } else {
                            assert(recs[i].1.len() < 2);
                        }
                    } else {
                        assert(recs[i].1.len() != recs[j].1.len());
                    }
                }
            },
            _ => {},
        },
        None => {},
    }
}

proof fn lemma_apply_fresh(
    state: (Map<(Location, Seq<SubLoc>), MirOrigin>, Seq<(Location, Seq<SubLoc>, MirOrigin, MirOrigin)>),
    recs: Seq<OriginRecord>,
    n: nat,
)
    requires
        n <= recs.len(),
        forall|i: int| 0 <= i < n ==> !state.0.contains_key(record_key(#[trigger] recs[i])),
        forall|i: int, j: int|
            0 <= i < j < n ==> record_key(#[trigger] recs[i]) != record_key(#[trigger] recs[j]),
    ensures
        apply_records(state, recs, n).1 == state.1,
        forall|key: (Location, Seq<SubLoc>)| #[trigger]
            apply_records(state, recs, n).0.contains_key(key) ==> state.0.contains_key(key)
                || exists|i: int| 0 <= i < n && key == record_key(#[trigger] recs[i]),
    decreases n,
{
    if n > 0 {
        lemma_apply_fresh(state, recs, (n - 1) as nat);
        let (m, c) = apply_records(state, recs, (n - 1) as nat);
        let r = recs[n - 1];
        if m.contains_key(record_key(r)) {
            if !state.0.contains_key(record_key(r)) {
                let i = choose|i: int| 0 <= i < n - 1 && record_key(r) == record_key(#[trigger] recs[i]);
                assert(false);
            }
        }
        assert forall|key: (Location, Seq<SubLoc>)| #[trigger]
            apply_records(state, recs, n).0.contains_key(key) implies state.0.contains_key(key)
                || exists|i: int| 0 <= i < n && key == record_key(#[trigger] recs[i]) by {
            if key != record_key(r) {
                assert(m.contains_key(key));
                if !state.0.contains_key(key) {
                    let i = choose|i: int| 0 <= i < n - 1 && key == record_key(#[trigger] recs[i]);
                    assert(0 <= i < n && key == record_key(recs[i]));
                }
            } else {
                assert(key == record_key(recs[n - 1]));
            }
        }
    }
}

/// Whether no two expressions of the body share a span, as when no expression was
/// duplicated by the lowering.
pub open spec fn distinct_spans(hir: &HirBody) -> bool {
    forall|i: int, j: int|
        0 <= i < hir.exprs@.len() && 0 <= j < hir.exprs@.len() && i != j ==> #[trigger] hir.exprs@[i].span
            != #[trigger] hir.exprs@[j].span
}

proof fn lemma_no_conflicts_upto(body: &Body, hir: &HirBody, k: nat)
    requires
        k <= hir.exprs@.len(),
        distinct_spans(hir),
    ensures
        unlower_state(body, hir, k).1.len() == 0,
        forall|key: (Location, Seq<SubLoc>)| #[trigger]
            unlower_state(body, hir, k).0.contains_key(key) ==> exists|j: int|
                0 <= j < k && loc_span(body, key.0) == Some(#[trigger] hir.exprs@[j].span),
    decreases k,
{
    if k > 0 {
        let p = (k - 1) as int;
        lemma_no_conflicts_upto(body, hir, (k - 1) as nat);
        let prev = unlower_state(body, hir, (k - 1) as nat);
        let recs = expr_records(body, hir, p);
        lemma_expr_records(body, hir, p);
        assert forall|i: int| 0 <= i < recs.len() implies !prev.0.contains_key(record_key(#[trigger] recs[i])) by {
            if prev.0.contains_key(record_key(recs[i])) {
                let j = choose|j: int|
                    0 <= j < k - 1 && loc_span(body, record_key(recs[i]).0) == Some(#[trigger] hir.exprs@[j].span);
                assert(hir.exprs@[j].span == hir.exprs@[p].span);
                assert(false);
            }
        }
        lemma_apply_fresh(prev, recs, recs.len());
        assert forall|key: (Location, Seq<SubLoc>)| #[trigger]
            unlower_state(body, hir, k).0.contains_key(key) implies exists|j: int|
                0 <= j < k && loc_span(body, key.0) == Some(#[trigger] hir.exprs@[j].span) by {
            if !prev.0.contains_key(key) {
                let i = choose|i: int| 0 <= i < recs.len() && key == record_key(#[trigger] recs[i]);
                assert(loc_span(body, key.0) == Some(hir.exprs@[p].span));
            } else {
                let j = choose|j: int| 0 <= j < k - 1 && loc_span(body, key.0) == Some(#[trigger] hir.exprs@[j].span);
                assert(0 <= j < k);
            }
        }
    }
}

/// When no two expressions share a span, building the unlowering map meets no conflict:
/// every key is recorded from exactly one expression.
pub proof fn lemma_distinct_spans_no_conflicts(body: &Body, hir: &HirBody)
    requires
        distinct_spans(hir),
    ensures
        unlower_state(body, hir, hir.exprs@.len()).1.len() == 0,
{
    lemma_no_conflicts_upto(body, hir, hir.exprs@.len());
}

} // verus!
