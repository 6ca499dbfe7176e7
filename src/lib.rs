//! Rewriting of raw-pointer code into safe references, slices and cells.
//!
//! Rewriting runs in three stages:
//!
//! 1. `mir_op` annotates each instruction of the low-level IR with abstract rewrites, chosen
//!    from the permissions and flags that inference gave each pointer (`type_desc`), and keyed
//!    by the path from the instruction down to the part they apply to.
//! 2. `unlower` maps each instruction, and each part of one, back to the source expression it
//!    was lowered from, so that the rewrites can be lifted to source-level `rewrite::Rewrite`
//!    trees anchored at spans.
//! 3. `apply` renders those trees against the source text and splices them into each file in
//!    one pass.
use vstd::prelude::*;

pub mod apply;
pub mod mir;
pub mod mir_op;
pub mod panic_detail;
pub mod rewrite;
pub mod span_index;
pub mod text;
pub mod type_desc;
pub mod unlower;

verus! {

/// Whether a pointer or reference may be mutated through.
#[derive(Clone, Copy, PartialEq, Eq, Debug, Structural)]
pub enum Mutability {
    Not,
    Mut,
}

} // verus!
