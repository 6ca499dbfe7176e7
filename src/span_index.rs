//! An index from source spans to the IR-L instructions that carry them.
use vstd::prelude::*;

use crate::mir::{Body, Location, Span};

verus! {

/// The number of instructions in block `b`: its statements, and its terminator if any.
pub open spec fn block_len(body: &Body, b: int) -> nat {
    body.basic_blocks@[b].statements@.len() + if body.basic_blocks@[b].terminator is Some {
        1nat
    } else {
        0nat
    }
}

/// The span of the `i`th instruction of block `b`.
pub open spec fn instr_span(body: &Body, b: int, i: int) -> Span {
    if i < body.basic_blocks@[b].statements@.len() {
        body.basic_blocks@[b].statements@[i].span
    } else {
        body.basic_blocks@[b].terminator->0.span
    }
}

/// The first `n` instructions of block `b` with their spans.
pub open spec fn block_entries(body: &Body, b: int, n: nat) -> Seq<(Span, Location)>
    decreases n,
{
    if n == 0 {
        Seq::empty()
    } else {
        block_entries(body, b, (n - 1) as nat).push(
            (
                instr_span(body, b, n - 1),
                Location { block: b as usize, statement_index: (n - 1) as usize },
            ),
        )
    }
}

/// The instructions of the first `nb` blocks with their spans, in program order.
pub open spec fn body_entries(body: &Body, nb: nat) -> Seq<(Span, Location)>
    decreases nb,
{
    if nb == 0 {
        Seq::empty()
    } else {
        body_entries(body, (nb - 1) as nat) + block_entries(
            body,
            nb - 1,
            block_len(body, nb - 1),
        )
    }
}

/// Every instruction of a body with its span, in program order.
pub struct SpanIndex {
    pub entries: Vec<(Span, Location)>,
}

impl SpanIndex {
    pub open spec fn indexes(&self, body: &Body) -> bool {
        self.entries@ == body_entries(body, body.basic_blocks@.len())
    }
}

pub fn build_span_index(mir: &Body) -> (r: SpanIndex)
    ensures
        r.indexes(mir),
{
    let mut entries: Vec<(Span, Location)> = Vec::new();
    let mut b: usize = 0;
    while b < mir.basic_blocks.len()
        invariant
            b <= mir.basic_blocks@.len(),
            entries@ == body_entries(mir, b as nat),
        decreases mir.basic_blocks@.len() - b,
    {
        let bb = &mir.basic_blocks[b];
        let ghost before = entries@;
        let mut i: usize = 0;
        while i < bb.statements.len()
            invariant
                b < mir.basic_blocks@.len(),
                *bb == mir.basic_blocks@[b as int],
                i <= bb.statements@.len(),
                entries@ == before + block_entries(mir, b as int, i as nat),
            decreases bb.statements@.len() - i,
        {
            entries.push((bb.statements[i].span, Location { block: b, statement_index: i }));
            i = i + 1;
            assert(entries@ =~= before + block_entries(mir, b as int, i as nat));
        }
        if let Some(term) = &bb.terminator {
            entries.push((term.span, Location { block: b, statement_index: i }));
            assert(entries@ =~= before + block_entries(mir, b as int, (i + 1) as nat));
        }
        b = b + 1;
        assert(entries@ =~= body_entries(mir, b as nat));
    }
    SpanIndex { entries }
}

} // verus!
