//! The low-level, basic-block IR that the annotator and the unlowering builder read.
//!
//! Every place and operand carries the static type that the front end computed for it, and
//! every instruction the source span it was lowered from.
use vstd::prelude::*;

use crate::Mutability;

verus! {

/// A byte range `lo..hi` in the source file numbered `file`.
#[derive(Clone, Copy, PartialEq, Eq, Debug, Hash, Structural)]
pub struct Span {
    pub file: usize,
    pub lo: usize,
    pub hi: usize,
}

impl Span {
    /// The span that marks "no source location".
    pub fn dummy() -> (r: Span)
        ensures
            r == (Span { file: 0, lo: 0, hi: 0 }),
    {
        Span { file: 0, lo: 0, hi: 0 }
    }

    pub fn is_dummy(&self) -> (r: bool)
        ensures
            r == (self.lo == 0 && self.hi == 0),
    {
        self.lo == 0 && self.hi == 0
    }
}

/// An instruction's position: statement `statement_index` of block `block`; the index one
/// past the last statement names the block's terminator.
#[derive(Clone, Copy, PartialEq, Eq, Debug, Hash, PartialOrd, Ord, Structural)]
pub struct Location {
    pub block: usize,
    pub statement_index: usize,
}

/// The outer shape of a type, as far as rewriting cares.
#[derive(Clone, Copy, PartialEq, Eq, Debug, Structural)]
pub enum TyShape {
    /// `*const T` or `*mut T`
    RawPtr(Mutability),
    /// `&T` or `&mut T`
    Ref(Mutability),
    /// Anything else.
    Other,
}

/// A type: its shape, its own interned id, and the id of its pointee if it is a pointer.
#[derive(Clone, Copy, PartialEq, Eq, Debug, Structural)]
pub struct Ty {
    pub shape: TyShape,
    pub id: u64,
    pub pointee: u64,
}

impl Ty {
    pub open spec fn spec_is_any_ptr(&self) -> bool {
        !(self.shape is Other)
    }

    pub open spec fn spec_is_raw_ptr(&self) -> bool {
        self.shape is RawPtr
    }

    #[verifier::when_used_as_spec(spec_is_any_ptr)]
    pub fn is_any_ptr(&self) -> (r: bool)
        ensures
            r == self.spec_is_any_ptr(),
    {
        !matches!(self.shape, TyShape::Other)
    }

    #[verifier::when_used_as_spec(spec_is_raw_ptr)]
    pub fn is_raw_ptr(&self) -> (r: bool)
        ensures
            r == self.spec_is_raw_ptr(),
    {
        matches!(self.shape, TyShape::RawPtr(_))
    }
}

/// Identifies one pointer that inference has facts for.
#[derive(Clone, Copy, PartialEq, Eq, Debug, Structural)]
pub struct PointerId {
    pub index: u32,
}

/// The label of a type that holds no pointer.
pub const NO_POINTER: u32 = 0xffff_ffff;

impl PointerId {
    pub open spec fn spec_is_none(&self) -> bool {
        self.index == NO_POINTER
    }

    #[verifier::when_used_as_spec(spec_is_none)]
    pub fn is_none(&self) -> (r: bool)
        ensures
            r == self.spec_is_none(),
    {
        self.index == NO_POINTER
    }
}

/// A type with the pointer label that inference attached to its outermost pointer.
#[derive(Clone, Copy, PartialEq, Eq, Debug, Structural)]
pub struct LTy {
    pub ty: Ty,
    pub label: PointerId,
}

/// A place: a local, possibly projected.
#[derive(Clone, Copy, PartialEq, Eq, Debug, Structural)]
pub struct Place {
    pub local: usize,
    /// The number of projections applied to the local.
    pub projection_len: usize,
    /// Whether one of those projections dereferences a pointer.
    pub indirect: bool,
    /// The type of the place.
    pub lty: LTy,
    /// The type of the local.
    pub local_lty: LTy,
    /// The pointer that stands for the local's own address.
    pub local_addr: PointerId,
}

#[derive(Clone, Copy, PartialEq, Eq, Debug, Structural)]
pub enum Operand {
    Copy(Place),
    Move(Place),
    /// A constant of the given type.
    Constant(LTy),
}

impl Operand {
    pub open spec fn spec_place(&self) -> Option<Place> {
        match *self {
            Operand::Copy(pl) => Some(pl),
            Operand::Move(pl) => Some(pl),
            Operand::Constant(_) => None,
        }
    }

    #[verifier::when_used_as_spec(spec_place)]
    pub fn place(&self) -> (r: Option<Place>)
        ensures
            r == self.spec_place(),
    {
        match *self {
            Operand::Copy(pl) => Some(pl),
            Operand::Move(pl) => Some(pl),
            Operand::Constant(_) => None,
        }
    }

    pub open spec fn spec_lty(&self) -> LTy {
        match *self {
            Operand::Copy(pl) => pl.lty,
            Operand::Move(pl) => pl.lty,
            Operand::Constant(lty) => lty,
        }
    }

    /// The type of the operand.
    #[verifier::when_used_as_spec(spec_lty)]
    pub fn lty(&self) -> (r: LTy)
        ensures
            r == self.spec_lty(),
    {
        match *self {
            Operand::Copy(pl) => pl.lty,
            Operand::Move(pl) => pl.lty,
            Operand::Constant(lty) => lty,
        }
    }
}

#[derive(Clone, PartialEq, Eq, Debug)]
pub enum Rvalue {
    Use(Operand),
    Repeat(Operand),
    Ref(Place),
    ThreadLocalRef,
    AddressOf(Mutability, Place),
    Len(Place),
    Cast(Operand),
    BinaryOp(Operand, Operand),
    CheckedBinaryOp(Operand, Operand),
    NullaryOp,
    UnaryOp(Operand),
    Discriminant(Place),
    Aggregate(Vec<Operand>),
    ShallowInitBox(Operand),
    CopyForDeref(Place),
}

#[derive(Clone, PartialEq, Eq, Debug)]
pub enum StatementKind {
    /// `dest = rvalue`, where `rvalue_lty` is the type of the right-hand side and
    /// `void_cast` marks a cast to or from `void*` around an allocation call.
    Assign { dest: Place, rvalue: Rvalue, rvalue_lty: LTy, void_cast: bool },
    FakeRead,
    SetDiscriminant,
    Deinit,
    StorageLive,
    StorageDead,
    Retag,
    AscribeUserType,
    Coverage,
    CopyNonOverlapping,
    Nop,
}

#[derive(Clone, PartialEq, Eq, Debug)]
pub struct Statement {
    pub kind: StatementKind,
    pub span: Span,
}

/// The callees that rewriting treats specially.
#[derive(Clone, Copy, PartialEq, Eq, Debug, Structural)]
pub enum Callee {
    /// `ptr.offset(n)` and its relatives.
    PtrOffset,
    /// `slice.as_ptr()`, `slice.as_mut_ptr()`.
    SliceAsPtr,
    Other,
}

#[derive(Clone, PartialEq, Eq, Debug)]
pub enum TerminatorKind {
    Goto,
    SwitchInt,
    Resume,
    Abort,
    Return,
    Unreachable,
    Drop,
    DropAndReplace,
    Call { callee: Callee, args: Vec<Operand>, destination: Place },
    Assert,
    Yield,
    GeneratorDrop,
    FalseEdge,
    FalseUnwind,
    InlineAsm,
}

#[derive(Clone, PartialEq, Eq, Debug)]
pub struct Terminator {
    pub kind: TerminatorKind,
    pub span: Span,
}

#[derive(Clone, PartialEq, Eq, Debug)]
pub struct BasicBlockData {
    pub statements: Vec<Statement>,
    pub terminator: Option<Terminator>,
}

/// A function body: its basic blocks, in order.
#[derive(Clone, PartialEq, Eq, Debug)]
pub struct Body {
    pub basic_blocks: Vec<BasicBlockData>,
}

} // verus!

verus! {

/// The statement at `loc`, if `loc` names one.
pub open spec fn spec_stmt_at(body: &Body, loc: Location) -> Option<Statement> {
    if loc.block < body.basic_blocks@.len() && loc.statement_index
        < body.basic_blocks@[loc.block as int].statements@.len() {
        Some(body.basic_blocks@[loc.block as int].statements@[loc.statement_index as int])
    } else {
        None
    }
}

/// The terminator at `loc`, if `loc` names one.
pub open spec fn spec_term_at(body: &Body, loc: Location) -> Option<Terminator> {
    if loc.block < body.basic_blocks@.len() && loc.statement_index
        == body.basic_blocks@[loc.block as int].statements@.len() {
        body.basic_blocks@[loc.block as int].terminator
    } else {
        None
    }
}

/// Whether `a` comes before `b` in program order.
pub open spec fn loc_lt(a: Location, b: Location) -> bool {
    a.block < b.block || (a.block == b.block && a.statement_index < b.statement_index)
}

} // verus!

verus! {

impl Body {
    /// The statement at `loc`, if `loc` names one.
    pub fn stmt_at(&self, loc: Location) -> (r: Option<&Statement>)
        ensures
            match r {
                Some(s) => spec_stmt_at(self, loc) == Some(*s),
                None => spec_stmt_at(self, loc) is None,
            },
    {
        if loc.block < self.basic_blocks.len() && loc.statement_index
            < self.basic_blocks[loc.block].statements.len() {
            Some(&self.basic_blocks[loc.block].statements[loc.statement_index])
        } else {
            None
        }
    }

    /// The terminator at `loc`, if `loc` names one.
    pub fn term_at(&self, loc: Location) -> (r: Option<&Terminator>)
        ensures
            match r {
                Some(t) => spec_term_at(self, loc) == Some(*t),
                None => spec_term_at(self, loc) is None,
            },
    {
        if loc.block < self.basic_blocks.len() && loc.statement_index
            == self.basic_blocks[loc.block].statements.len() {
            match &self.basic_blocks[loc.block].terminator {
                Some(t) => Some(t),
                None => None,
            }
        } else {
            None
        }
    }
}

} // verus!
