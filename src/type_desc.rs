//! Resolution of a pointer's static type and inferred facts into a `TypeDesc`.
use vstd::prelude::*;

use crate::mir::{LTy, Ty, TyShape};

verus! {

/// Permission bit: the pointer is read through.
pub const READ: u16 = 1;
/// Permission bit: the pointer is written through.
pub const WRITE: u16 = 2;
/// Permission bit: no other pointer aliases this one while it is live.
pub const UNIQUE: u16 = 4;
/// Permission bit: the pointer is used linearly.
pub const LINEAR: u16 = 8;
/// Permission bit: the pointer is offset forward.
pub const OFFSET_ADD: u16 = 16;
/// Permission bit: the pointer is offset backward.
pub const OFFSET_SUB: u16 = 32;
/// Permission bit: the pointer is freed.
pub const FREE: u16 = 64;

/// Flag bit: the pointee is shared and mutated, so it lives in a `Cell`.
pub const CELL: u16 = 1;

/// The permissions inferred for one pointer, as a bit set.
#[derive(Clone, Copy, PartialEq, Eq, Debug, Structural)]
pub struct PermissionSet {
    pub bits: u16,
}

/// The flags inferred for one pointer, as a bit set.
#[derive(Clone, Copy, PartialEq, Eq, Debug, Structural)]
pub struct FlagSet {
    pub bits: u16,
}

pub open spec fn bits_contain(bits: u16, other: u16) -> bool {
    bits & other == other
}

impl PermissionSet {
    pub fn empty() -> (r: PermissionSet)
        ensures
            r.bits == 0,
    {
        PermissionSet { bits: 0 }
    }

    /// Whether every bit of `other` is set in `self`.
    pub fn contains(&self, other: u16) -> (r: bool)
        ensures
            r == bits_contain(self.bits, other),
    {
        self.bits & other == other
    }
}

impl FlagSet {
    pub fn empty() -> (r: FlagSet)
        ensures
            r.bits == 0,
    {
        FlagSet { bits: 0 }
    }

    /// Whether every bit of `other` is set in `self`.
    pub fn contains(&self, other: u16) -> (r: bool)
        ensures
            r == bits_contain(self.bits, other),
    {
        self.bits & other == other
    }
}

/// What kind of reference or handle a pointer is, or is to become.
#[derive(Clone, Copy, PartialEq, Eq, Debug, Structural)]
pub enum Ownership {
    /// Left as it is: not a pointer, or not rewritten.
    Raw,
    /// `&T`
    Imm,
    /// `&Cell<T>`
    Cell,
    /// `&mut T`
    Mut,
}

/// How many values a pointer reaches.
#[derive(Clone, Copy, PartialEq, Eq, Debug, Structural)]
pub enum Quantity {
    /// One value: `&T`.
    Single,
    /// A run of values from the pointer onward: `&[T]`.
    Slice,
    /// A pointer that also moves backward: kept as an offset pointer.
    OffsetPtr,
    /// A fixed-size array: `&[T; n]`.
    Array,
}

/// The shape a pointer has, or is to take: ownership, quantity and pointee type.
#[derive(Clone, Copy, PartialEq, Eq, Debug, Structural)]
pub struct TypeDesc {
    pub own: Ownership,
    pub qty: Quantity,
    /// The pointee type, as an interned type id with regions erased.
    pub pointee_ty: u64,
}

/// The facts that inference gives each pointer, indexed by pointer id.
pub struct Assignment {
    pub perms: Vec<PermissionSet>,
    pub flags: Vec<FlagSet>,
}

/// The permissions of pointer `p`; an unknown pointer has none.
pub open spec fn perms_of(asn: &Assignment, p: u32) -> PermissionSet {
    if (p as int) < asn.perms@.len() {
        asn.perms@[p as int]
    } else {
        PermissionSet { bits: 0 }
    }
}

/// The flags of pointer `p`; an unknown pointer has none.
pub open spec fn flags_of(asn: &Assignment, p: u32) -> FlagSet {
    if (p as int) < asn.flags@.len() {
        asn.flags@[p as int]
    } else {
        FlagSet { bits: 0 }
    }
}

impl Assignment {
    pub fn perm(&self, p: u32) -> (r: PermissionSet)
        ensures
            r == perms_of(self, p),
    {
        if (p as usize) < self.perms.len() {
            self.perms[p as usize]
        } else {
            PermissionSet::empty()
        }
    }

    pub fn flag(&self, p: u32) -> (r: FlagSet)
        ensures
            r == flags_of(self, p),
    {
        if (p as usize) < self.flags.len() {
            self.flags[p as usize]
        } else {
            FlagSet::empty()
        }
    }
}

pub open spec fn spec_quantity(perms: PermissionSet) -> Quantity {
    if bits_contain(perms.bits, OFFSET_SUB) {
        Quantity::OffsetPtr
    } else if bits_contain(perms.bits, OFFSET_ADD) {
        Quantity::Slice
    } else {
        Quantity::Single
    }
}

/// Ownership of a reference with these facts, once it is known to be rewritten.
pub open spec fn spec_ref_ownership(perms: PermissionSet, flags: FlagSet) -> Ownership {
    if bits_contain(flags.bits, CELL) {
        Ownership::Cell
    } else if bits_contain(perms.bits, WRITE | UNIQUE) {
        Ownership::Mut
    } else {
        Ownership::Imm
    }
}

pub open spec fn spec_perms_to_desc(ty: Ty, perms: PermissionSet, flags: FlagSet) -> TypeDesc {
    TypeDesc {
        own: if bits_contain(flags.bits, CELL) || ty.is_any_ptr() {
            spec_ref_ownership(perms, flags)
        } else {
            Ownership::Raw
        },
        qty: spec_quantity(perms),
        pointee_ty: if ty.is_any_ptr() {
            ty.pointee
        } else {
            ty.id
        },
    }
}

pub open spec fn spec_local_perms_to_desc(
    local_ty: Ty,
    perms: PermissionSet,
    flags: FlagSet,
) -> TypeDesc {
    TypeDesc {
        own: spec_ref_ownership(perms, flags),
        qty: spec_quantity(perms),
        pointee_ty: local_ty.id,
    }
}

fn quantity(perms: PermissionSet) -> (r: Quantity)
    ensures
        r == spec_quantity(perms),
{
    if perms.contains(OFFSET_SUB) {
        Quantity::OffsetPtr
    } else if perms.contains(OFFSET_ADD) {
        Quantity::Slice
    } else {
        Quantity::Single
    }
}

fn ref_ownership(perms: PermissionSet, flags: FlagSet) -> (r: Ownership)
    ensures
        r == spec_ref_ownership(perms, flags),
{
    if flags.contains(CELL) {
        Ownership::Cell
    } else if perms.contains(WRITE | UNIQUE) {
        Ownership::Mut
    } else {
        Ownership::Imm
    }
}

/// The descriptor of a pointer of type `ty`: a `CELL` flag makes it a cell reference;
/// otherwise a pointer is `&mut` when written and unique and `&` else, and a non-pointer
/// type passes through as `Raw`.  Offsetting permissions make it a slice or offset pointer.
pub fn perms_to_desc(ty: Ty, perms: PermissionSet, flags: FlagSet) -> (r: TypeDesc)
    ensures
        r == spec_perms_to_desc(ty, perms, flags),
        r.qty != Quantity::Array,
{
    let own = if flags.contains(CELL) || ty.is_any_ptr() {
        ref_ownership(perms, flags)
    } else {
        Ownership::Raw
    };
    let pointee_ty = if ty.is_any_ptr() {
        ty.pointee
    } else {
        ty.id
    };
    TypeDesc { own, qty: quantity(perms), pointee_ty }
}

/// The descriptor of the address of a local of type `local_ty`: the local itself is the
/// pointee.
pub fn local_perms_to_desc(local_ty: Ty, perms: PermissionSet, flags: FlagSet) -> (r: TypeDesc)
    ensures
        r == spec_local_perms_to_desc(local_ty, perms, flags),
        r.qty != Quantity::Array,
{
    TypeDesc { own: ref_ownership(perms, flags), qty: quantity(perms), pointee_ty: local_ty.id }
}

/// The descriptor of a labelled type under the facts of `asn`.  A type without a label has
/// no facts and passes through as `Raw`.
pub open spec fn spec_lty_desc(asn: &Assignment, lty: LTy) -> TypeDesc {
    if lty.label.spec_is_none() {
        TypeDesc {
            own: Ownership::Raw,
            qty: Quantity::Single,
            pointee_ty: if lty.ty.spec_is_any_ptr() {
                lty.ty.pointee
            } else {
                lty.ty.id
            },
        }
    } else {
        spec_perms_to_desc(lty.ty, perms_of(asn, lty.label.index), flags_of(asn, lty.label.index))
    }
}

pub fn lty_desc(asn: &Assignment, lty: LTy) -> (r: TypeDesc)
    ensures
        r == spec_lty_desc(asn, lty),
        r.qty != Quantity::Array,
{
    if lty.label.is_none() {
        let pointee_ty = if lty.ty.is_any_ptr() {
            lty.ty.pointee
        } else {
            lty.ty.id
        };
        return TypeDesc { own: Ownership::Raw, qty: Quantity::Single, pointee_ty };
    }
    perms_to_desc(lty.ty, asn.perm(lty.label.index), asn.flag(lty.label.index))
}

} // verus!
