//! Source-level rewrites: a small tree of expression and type builders, printed back to
//! source text with as few parentheses as precedence allows.
use vstd::prelude::*;
use vstd::string::*;

use crate::mir::Span;
use crate::Mutability;

verus! {

#[derive(PartialEq, Eq, Debug)]
pub enum Rewrite {
    /// Take the rewritten expression unchanged.
    Identity,
    /// Extract the subexpression at the given index.
    Sub(usize, Span),
    // Expression builders
    /// `&e`, `&mut e`
    Ref(Box<Rewrite>, Mutability),
    /// `core::ptr::addr_of!(e)`, `core::ptr::addr_of_mut!(e)`
    AddrOf(Box<Rewrite>, Mutability),
    /// `*e`
    Deref(Box<Rewrite>),
    /// `arr[idx]`
    Index(Box<Rewrite>, Box<Rewrite>),
    /// `arr[idx..]`
    SliceTail(Box<Rewrite>, Box<Rewrite>),
    /// `e as usize`
    CastUsize(Box<Rewrite>),
    /// The integer literal `0`.
    LitZero,
    // Type builders
    /// Emit a complete pretty-printed type, discarding the annotation it replaces.
    PrintTy(String),
    /// `*const T`, `*mut T`
    TyPtr(Box<Rewrite>, Mutability),
    /// `&T`, `&mut T`
    TyRef(Box<Rewrite>, Mutability),
    /// `[T]`
    TySlice(Box<Rewrite>),
    /// `Foo<T1, T2>`
    TyCtor(String, Vec<Rewrite>),
}

impl Rewrite {
    /// Copies of the type arguments of a `TyCtor`.
    fn copy_args(&self) -> (r: Vec<Rewrite>)
        requires
            self is TyCtor,
        decreases self, 0nat,
    {
        let mut args: Vec<Rewrite> = Vec::new();
        if let Rewrite::TyCtor(name, rws) = self {
            let mut i: usize = 0;
            while i < rws.len()
                invariant
                    i <= rws@.len(),
                    *self == Rewrite::TyCtor(*name, *rws),
                decreases rws.len() - i,
            {
                proof {
                    vstd::std_specs::vec::axiom_vec_index_decreases(*rws, i as int);
                    assert(self->TyCtor_1 == *rws);
                }
                args.push(rws[i].copy_tree());
                i = i + 1;
            }
        }
        args
    }

    /// A copy of the tree, node by node.
    fn copy_tree(&self) -> (r: Rewrite)
        decreases self, 1nat,
    {
        match self {
            Rewrite::Identity => Rewrite::Identity,
            Rewrite::Sub(i, s) => Rewrite::Sub(*i, *s),
            Rewrite::Ref(rw, m) => Rewrite::Ref(Box::new(rw.copy_tree()), *m),
            Rewrite::AddrOf(rw, m) => Rewrite::AddrOf(Box::new(rw.copy_tree()), *m),
            Rewrite::Deref(rw) => Rewrite::Deref(Box::new(rw.copy_tree())),
            Rewrite::Index(arr, idx) => Rewrite::Index(
                Box::new(arr.copy_tree()),
                Box::new(idx.copy_tree()),
            ),
            Rewrite::SliceTail(arr, idx) => Rewrite::SliceTail(
                Box::new(arr.copy_tree()),
                Box::new(idx.copy_tree()),
            ),
            Rewrite::CastUsize(rw) => Rewrite::CastUsize(Box::new(rw.copy_tree())),
            Rewrite::LitZero => Rewrite::LitZero,
            Rewrite::PrintTy(s) => Rewrite::PrintTy(s.clone()),
            Rewrite::TyPtr(rw, m) => Rewrite::TyPtr(Box::new(rw.copy_tree()), *m),
            Rewrite::TyRef(rw, m) => Rewrite::TyRef(Box::new(rw.copy_tree()), *m),
            Rewrite::TySlice(rw) => Rewrite::TySlice(Box::new(rw.copy_tree())),
            Rewrite::TyCtor(name, _) => Rewrite::TyCtor(name.clone(), self.copy_args()),
        }
    }
}

impl Clone for Rewrite {
    fn clone(&self) -> Self {
        self.copy_tree()
    }
}

pub open spec fn digit_text(d: nat) -> Seq<char> {
    if d == 0 {
        "0"@
    } else if d == 1 {
        "1"@
    } else if d == 2 {
        "2"@
    } else if d == 3 {
        "3"@
    } else if d == 4 {
        "4"@
    } else if d == 5 {
        "5"@
    } else if d == 6 {
        "6"@
    } else if d == 7 {
        "7"@
    } else if d == 8 {
        "8"@
    } else {
        "9"@
    }
}

/// The decimal digits of `n`, most significant first.
pub open spec fn decimal_text(n: nat) -> Seq<char>
    decreases n,
{
    if n < 10 {
        digit_text(n)
    } else {
        decimal_text(n / 10) + digit_text(n % 10)
    }
}

pub open spec fn parenthesize_if(cond: bool, inner: Seq<char>) -> Seq<char> {
    if cond {
        "("@ + inner + ")"@
    } else {
        inner
    }
}

pub open spec fn ref_prefix(m: Mutability) -> Seq<char> {
    match m {
        Mutability::Not => "&"@,
        Mutability::Mut => "&mut "@,
    }
}

pub open spec fn addr_of_prefix(m: Mutability) -> Seq<char> {
    match m {
        Mutability::Not => "core::ptr::addr_of!"@,
        Mutability::Mut => "core::ptr::addr_of_mut!"@,
    }
}

pub open spec fn ptr_prefix(m: Mutability) -> Seq<char> {
    match m {
        Mutability::Not => "*const "@,
        Mutability::Mut => "*mut "@,
    }
}

/// The text of a leaf: a placeholder, or with a source text, the text of the leaf's span.
/// `whole` is the span of the expression being rewritten, which `Identity` stands for.
pub open spec fn leaf_text(rw: Rewrite, src: Option<Seq<char>>, whole: Span) -> Seq<char> {
    match rw {
        Rewrite::Identity => match src {
            Some(t) => t.subrange(whole.lo as int, whole.hi as int),
            None => "$e"@,
        },
        Rewrite::Sub(i, s) => match src {
            Some(t) => t.subrange(s.lo as int, s.hi as int),
            None => "$"@ + decimal_text(i as nat),
        },
        _ => Seq::empty(),
    }
}

/// The text of `rw` in a context of precedence `prec`.  Expression precedences are 3 for
/// `Index` and `SliceTail`, 2 for `Ref` and `Deref`, and 1 for `CastUsize`; an operator is
/// parenthesized when the context binds tighter than it does.  A higher number binds more
/// tightly, and 0 accepts anything.
pub open spec fn spec_print(rw: Rewrite, prec: nat, src: Option<Seq<char>>, whole: Span) -> Seq<char>
    decreases rw, 1nat, 0nat,
{
    match rw {
        Rewrite::Identity => leaf_text(rw, src, whole),
        Rewrite::Sub(_, _) => leaf_text(rw, src, whole),
        Rewrite::Ref(inner, m) => parenthesize_if(
            prec > 2,
            ref_prefix(m) + spec_print(*inner, 2, src, whole),
        ),
        Rewrite::AddrOf(inner, m) => addr_of_prefix(m) + "("@ + spec_print(*inner, 0, src, whole)
            + ")"@,
        Rewrite::Deref(inner) => parenthesize_if(prec > 2, "*"@ + spec_print(*inner, 2, src, whole)),
        Rewrite::Index(arr, idx) => parenthesize_if(
            prec > 3,
            spec_print(*arr, 3, src, whole) + "["@ + spec_print(*idx, 0, src, whole) + "]"@,
        ),
        // No precedence is settled for `..`, so its operand is always parenthesized.
        Rewrite::SliceTail(arr, idx) => parenthesize_if(
            prec > 3,
            spec_print(*arr, 3, src, whole) + "["@ + spec_print(*idx, 999, src, whole) + " ..]"@,
        ),
        Rewrite::CastUsize(inner) => parenthesize_if(
            prec > 1,
            spec_print(*inner, 1, src, whole) + " as usize"@,
        ),
        Rewrite::LitZero => "0"@,
        Rewrite::PrintTy(s) => s@,
        Rewrite::TyPtr(inner, m) => ptr_prefix(m) + spec_print(*inner, 0, src, whole),
        Rewrite::TyRef(inner, m) => ref_prefix(m) + spec_print(*inner, 0, src, whole),
        Rewrite::TySlice(inner) => "["@ + spec_print(*inner, 0, src, whole) + "]"@,
        Rewrite::TyCtor(name, args) => name@ + "<"@ + spec_print_args(rw, args@.len(), src, whole)
            + ">"@,
    }
}

/// The first `n` type arguments of a `TyCtor`, separated by `, `.
pub open spec fn spec_print_args(rw: Rewrite, n: nat, src: Option<Seq<char>>, whole: Span) -> Seq<
    char,
>
    decreases rw, 0nat, n,
{
    match rw {
        Rewrite::TyCtor(_, args) => if n == 0 || n > args@.len() {
            Seq::empty()
        } else {
            proof {
                vstd::std_specs::vec::axiom_vec_index_decreases(args, n - 1);
            }
            spec_print_args(rw, (n - 1) as nat, src, whole) + (if n > 1 {
                ", "@
            } else {
                Seq::empty()
            }) + spec_print(args@[n - 1], 0, src, whole)
        },
        _ => Seq::empty(),
    }
}

/// The text of `rw` with placeholders for the rewritten expression (`$e`) and its
/// subexpressions (`$0`, `$1`, ...).
pub open spec fn spec_pretty(rw: Rewrite, prec: nat) -> Seq<char> {
    spec_print(rw, prec, None, Span { file: 0, lo: 0, hi: 0 })
}

/// Every span that `rw` takes text from lies within a text of `len` characters.
pub open spec fn spans_within(rw: Rewrite, len: nat, whole: Span) -> bool
    decreases rw, 1nat, 0nat,
{
    match rw {
        Rewrite::Identity => whole.lo <= whole.hi <= len,
        Rewrite::Sub(_, s) => s.lo <= s.hi <= len,
        Rewrite::Ref(inner, _) => spans_within(*inner, len, whole),
        Rewrite::AddrOf(inner, _) => spans_within(*inner, len, whole),
        Rewrite::Deref(inner) => spans_within(*inner, len, whole),
        Rewrite::Index(arr, idx) => spans_within(*arr, len, whole) && spans_within(*idx, len, whole),
        Rewrite::SliceTail(arr, idx) => spans_within(*arr, len, whole) && spans_within(
            *idx,
            len,
            whole,
        ),
        Rewrite::CastUsize(inner) => spans_within(*inner, len, whole),
        Rewrite::TyPtr(inner, _) => spans_within(*inner, len, whole),
        Rewrite::TyRef(inner, _) => spans_within(*inner, len, whole),
        Rewrite::TySlice(inner) => spans_within(*inner, len, whole),
        Rewrite::TyCtor(_, args) => spans_within_args(rw, args@.len(), len, whole),
        _ => true,
    }
}

pub open spec fn spans_within_args(rw: Rewrite, n: nat, len: nat, whole: Span) -> bool
    decreases rw, 0nat, n,
{
    match rw {
        Rewrite::TyCtor(_, args) => if n == 0 || n > args@.len() {
            true
        } else {
            proof {
                vstd::std_specs::vec::axiom_vec_index_decreases(args, n - 1);
            }
            spans_within_args(rw, (n - 1) as nat, len, whole) && spans_within(
                args@[n - 1],
                len,
                whole,
            )
        },
        _ => true,
    }
}

/// The precedence of an expression operator: 3 for `Index` and `SliceTail`, 2 for `Ref` and
/// `Deref`, 1 for `CastUsize`.  Everything else never takes parentheses.
pub open spec fn precedence(rw: Rewrite) -> Option<nat> {
    match rw {
        Rewrite::Index(..) | Rewrite::SliceTail(..) => Some(3),
        Rewrite::Ref(..) | Rewrite::Deref(..) => Some(2),
        Rewrite::CastUsize(..) => Some(1),
        _ => None,
    }
}

/// In a context of precedence `prec`, an operator prints as it does in a context that
/// accepts anything, parenthesized exactly when its own precedence is lower than `prec`;
/// anything else prints the same in every context.
pub proof fn lemma_parenthesized_iff_looser(rw: Rewrite, prec: nat, src: Option<Seq<char>>, whole: Span)
    ensures
        spec_print(rw, prec, src, whole) == match precedence(rw) {
            Some(own) => parenthesize_if(prec > own, spec_print(rw, 0, src, whole)),
            None => spec_print(rw, 0, src, whole),
        },
{
}

pub open spec fn src_view(src: Option<&str>) -> Option<Seq<char>> {
    match src {
        Some(t) => Some(t@),
        None => None,
    }
}

/// Spans within a `TyCtor`'s first `n` arguments lie within the text when all do, and an
/// argument whose spans fall outside makes the prefix that holds it fall outside.
proof fn lemma_args_within(rw: Rewrite, len: nat, whole: Span, n: nat)
    requires
        rw is TyCtor,
        n <= rw->TyCtor_1@.len(),
    ensures
        spans_within(rw, len, whole) ==> spans_within_args(rw, n, len, whole),
        n > 0 ==> (spans_within_args(rw, n, len, whole) ==> spans_within(rw->TyCtor_1@[n - 1], len, whole)),
        n > 0 && !spans_within(rw->TyCtor_1@[n - 1], len, whole) ==> !spans_within(rw, len, whole),
    decreases rw->TyCtor_1@.len() - n,
{
    let args = rw->TyCtor_1;
    if n < args@.len() {
        lemma_args_within(rw, len, whole, n + 1);
    }
    if n > 0 {
        assert(spans_within_args(rw, n, len, whole) == (spans_within_args(
            rw,
            (n - 1) as nat,
            len,
            whole,
        ) && spans_within(args@[n - 1], len, whole)));
    }
}

fn digit_str(d: usize) -> (r: &'static str)
    requires
        d < 10,
    ensures
        r@ == digit_text(d as nat),
{
    if d == 0 {
        "0"
    } else if d == 1 {
        "1"
    } else if d == 2 {
        "2"
    } else if d == 3 {
        "3"
    } else if d == 4 {
        "4"
    } else if d == 5 {
        "5"
    } else if d == 6 {
        "6"
    } else if d == 7 {
        "7"
    } else if d == 8 {
        "8"
    } else {
        "9"
    }
}

pub(crate) fn write_decimal(out: &mut String, n: usize)
    ensures
        final(out)@ == old(out)@ + decimal_text(n as nat),
    decreases n,
{
    if n >= 10 {
        write_decimal(out, n / 10);
    }
    out.append(digit_str(n % 10));
    assert(final(out)@ =~= old(out)@ + decimal_text(n as nat));
}

fn write_ref_prefix(out: &mut String, m: Mutability)
    ensures
        final(out)@ == old(out)@ + ref_prefix(m),
{
    match m {
        Mutability::Not => out.append("&"),
        Mutability::Mut => out.append("&mut "),
    }
}

fn open_paren_if(out: &mut String, cond: bool)
    ensures
        final(out)@ == old(out)@ + if cond {
            "("@
        } else {
            Seq::empty()
        },
{
    if cond {
        out.append("(");
    } else {
        assert(out@ =~= old(out)@ + Seq::<char>::empty());
    }
}

fn close_paren_if(out: &mut String, cond: bool)
    ensures
        final(out)@ == old(out)@ + if cond {
            ")"@
        } else {
            Seq::empty()
        },
{
    if cond {
        out.append(")");
    } else {
        assert(out@ =~= old(out)@ + Seq::<char>::empty());
    }
}

impl Rewrite {
    fn print_leaf(&self, out: &mut String, src: Option<&str>, whole: Span)
        requires
            self is Identity || self is Sub,
            src is Some ==> spans_within(*self, src->0@.len(), whole),
        ensures
            final(out)@ == old(out)@ + leaf_text(*self, src_view(src), whole),
    {
        match self {
            Rewrite::Sub(i, s) => match src {
                Some(t) => out.append(t.substring_char(s.lo, s.hi)),
                None => {
                    out.append("$");
                    write_decimal(out, *i);
                    assert(out@ =~= old(out)@ + ("$"@ + decimal_text(*i as nat)));
                },
            },
            _ => match src {
                Some(t) => out.append(t.substring_char(whole.lo, whole.hi)),
                None => out.append("$e"),
            },
        }
    }

    /// Prints `&e`, `addr_of!(e)`, `*e` and `e as usize`.
    fn print_unary(&self, out: &mut String, prec: usize, src: Option<&str>, whole: Span)
        requires
            self is Ref || self is AddrOf || self is Deref || self is CastUsize,
            src is Some ==> spans_within(*self, src->0@.len(), whole),
        ensures
            final(out)@ == old(out)@ + spec_print(*self, prec as nat, src_view(src), whole),
        decreases self, 1nat,
    {
        let ghost start = out@;
        let ghost gsrc = src_view(src);
        match self {
            Rewrite::Ref(rw, mutbl) => {
                open_paren_if(out, prec > 2);
                write_ref_prefix(out, *mutbl);
                rw.print(out, 2, src, whole);
                close_paren_if(out, prec > 2);
            },
            Rewrite::AddrOf(rw, mutbl) => {
                match mutbl {
                    Mutability::Not => out.append("core::ptr::addr_of!"),
                    Mutability::Mut => out.append("core::ptr::addr_of_mut!"),
                }
                out.append("(");
                rw.print(out, 0, src, whole);
                out.append(")");
            },
            Rewrite::Deref(rw) => {
                open_paren_if(out, prec > 2);
                out.append("*");
                rw.print(out, 2, src, whole);
                close_paren_if(out, prec > 2);
            },
            Rewrite::CastUsize(rw) => {
                open_paren_if(out, prec > 1);
                rw.print(out, 1, src, whole);
                out.append(" as usize");
                close_paren_if(out, prec > 1);
            },
            _ => {},
        }
        assert(out@ =~= start + spec_print(*self, prec as nat, gsrc, whole));
    }

    /// Prints `arr[idx]` and `arr[idx ..]`.
    fn print_index(&self, out: &mut String, prec: usize, src: Option<&str>, whole: Span)
        requires
            self is Index || self is SliceTail,
            src is Some ==> spans_within(*self, src->0@.len(), whole),
        ensures
            final(out)@ == old(out)@ + spec_print(*self, prec as nat, src_view(src), whole),
        decreases self, 1nat,
    {
        let ghost start = out@;
        let ghost gsrc = src_view(src);
        match self {
            Rewrite::Index(arr, idx) => {
                open_paren_if(out, prec > 3);
                arr.print(out, 3, src, whole);
                out.append("[");
                idx.print(out, 0, src, whole);
                out.append("]");
                close_paren_if(out, prec > 3);
            },
            Rewrite::SliceTail(arr, idx) => {
                open_paren_if(out, prec > 3);
                arr.print(out, 3, src, whole);
                out.append("[");
                // Rather than settle a precedence for `..`, force parentheses here.
                idx.print(out, 999, src, whole);
                out.append(" ..]");
                close_paren_if(out, prec > 3);
            },
            _ => {},
        }
        assert(out@ =~= start + spec_print(*self, prec as nat, gsrc, whole));
    }

    /// Prints the type builders, which never need parentheses.
    fn print_type(&self, out: &mut String, src: Option<&str>, whole: Span)
        requires
            self is PrintTy || self is TyPtr || self is TyRef || self is TySlice || self is TyCtor,
            src is Some ==> spans_within(*self, src->0@.len(), whole),
        ensures
            forall|prec: nat| final(out)@ == old(out)@ + spec_print(*self, prec, src_view(src), whole),
        decreases self, 1nat,
    {
        let ghost start = out@;
        let ghost gsrc = src_view(src);
        match self {
            Rewrite::PrintTy(s) => out.append(s.as_str()),
            Rewrite::TyPtr(rw, mutbl) => {
                match mutbl {
                    Mutability::Not => out.append("*const "),
                    Mutability::Mut => out.append("*mut "),
                }
                rw.print(out, 0, src, whole);
            },
            Rewrite::TyRef(rw, mutbl) => {
                write_ref_prefix(out, *mutbl);
                rw.print(out, 0, src, whole);
            },
            Rewrite::TySlice(rw) => {
                out.append("[");
                rw.print(out, 0, src, whole);
                out.append("]");
            },
            Rewrite::TyCtor(name, _) => {
                out.append(name.as_str());
                out.append("<");
                self.print_args(out, src, whole);
                out.append(">");
            },
            _ => {},
        }
        assert forall|prec: nat| out@ == start + spec_print(*self, prec, gsrc, whole) by {
            assert(out@ =~= start + spec_print(*self, prec, gsrc, whole));
        }
    }

    /// Appends the type arguments of a `TyCtor`, separated by `, `.
    fn print_args(&self, out: &mut String, src: Option<&str>, whole: Span)
        requires
            self is TyCtor,
            src is Some ==> spans_within(*self, src->0@.len(), whole),
        ensures
            final(out)@ == old(out)@ + spec_print_args(
                *self,
                self->TyCtor_1@.len(),
                src_view(src),
                whole,
            ),
        decreases self, 0nat,
    {
        let ghost gsrc = src_view(src);
        if let Rewrite::TyCtor(name, rws) = self {
            let ghost mid = out@;
            let mut i: usize = 0;
            while i < rws.len()
                invariant
                    i <= rws@.len(),
                    *self == Rewrite::TyCtor(*name, *rws),
                    out@ == mid + spec_print_args(*self, i as nat, gsrc, whole),
                    src is Some ==> spans_within(*self, src->0@.len(), whole),
                    gsrc == src_view(src),
                decreases rws.len() - i,
            {
                proof {
                    vstd::std_specs::vec::axiom_vec_index_decreases(*rws, i as int);
                    if src is Some {
                        lemma_args_within(*self, src->0@.len(), whole, (i + 1) as nat);
                    }
                }
                if i > 0 {
                    out.append(", ");
                }
                rws[i].print(out, 0, src, whole);
                i = i + 1;
                assert(out@ =~= mid + spec_print_args(*self, i as nat, gsrc, whole));
            }
        }
    }

    /// Appends the text of `self`, in a context of precedence `prec`, to `out`; leaves take
    /// their text from `src` when it is given.
    fn print(&self, out: &mut String, prec: usize, src: Option<&str>, whole: Span)
        requires
            src is Some ==> spans_within(*self, src->0@.len(), whole),
        ensures
            final(out)@ == old(out)@ + spec_print(*self, prec as nat, src_view(src), whole),
        decreases self, 2nat,
    {
        match self {
            Rewrite::Identity | Rewrite::Sub(..) => self.print_leaf(out, src, whole),
            Rewrite::Ref(..) | Rewrite::AddrOf(..) | Rewrite::Deref(..) | Rewrite::CastUsize(..) => {
                self.print_unary(out, prec, src, whole)
            },
            Rewrite::Index(..) | Rewrite::SliceTail(..) => self.print_index(out, prec, src, whole),
            Rewrite::LitZero => out.append("0"),
            _ => self.print_type(out, src, whole),
        }
    }

    /// Appends the text of `self`, in a context of precedence `prec`, to `out`, with
    /// placeholders for the rewritten expression and its subexpressions.
    pub fn pretty(&self, out: &mut String, prec: usize)
        ensures
            final(out)@ == old(out)@ + spec_pretty(*self, prec as nat),
    {
        self.print(out, prec, None, Span::dummy());
    }

    /// Whether every span that `self` takes text from lies within a text of `len`
    /// characters.
    pub fn spans_fit(&self, len: usize, whole: Span) -> (r: bool)
        ensures
            r == spans_within(*self, len as nat, whole),
        decreases self,
    {
        match self {
            Rewrite::Identity => whole.lo <= whole.hi && whole.hi <= len,
            Rewrite::Sub(_, s) => s.lo <= s.hi && s.hi <= len,
            Rewrite::Ref(inner, _) | Rewrite::AddrOf(inner, _) | Rewrite::Deref(inner)
            | Rewrite::CastUsize(inner) | Rewrite::TyPtr(inner, _) | Rewrite::TyRef(inner, _)
            | Rewrite::TySlice(inner) => inner.spans_fit(len, whole),
            Rewrite::Index(arr, idx) | Rewrite::SliceTail(arr, idx) => arr.spans_fit(len, whole)
                && idx.spans_fit(len, whole),
            Rewrite::TyCtor(name, rws) => {
                let mut i: usize = 0;
                while i < rws.len()
                    invariant
                        i <= rws@.len(),
                        *self == Rewrite::TyCtor(*name, *rws),
                        spans_within_args(*self, i as nat, len as nat, whole),
                    decreases rws.len() - i,
                {
                    proof {
                        vstd::std_specs::vec::axiom_vec_index_decreases(*rws, i as int);
                    }
                    if !rws[i].spans_fit(len, whole) {
                        proof {
                            lemma_args_within(*self, len as nat, whole, (i + 1) as nat);
                        }
                        return false;
                    }
                    i = i + 1;
                }
                true
            },
            Rewrite::LitZero | Rewrite::PrintTy(_) => true,
        }
    }

    /// The text of `self` as a replacement for the expression at `whole` in `src`: the
    /// rewritten expression and its subexpressions take their text from `src`.  `None` when a
    /// span lies outside `src`.
    pub fn render(&self, src: &str, whole: Span) -> (r: Option<String>)
        ensures
            r is Some <==> spans_within(*self, src@.len(), whole),
            r is Some ==> r->0@ == spec_print(*self, 0, Some(src@), whole),
    {
        let len = src.unicode_len();
        if !self.spans_fit(len, whole) {
            return None;
        }
        let mut out = String::new();
        self.print(&mut out, 0, Some(src), whole);
        assert(out@ =~= spec_print(*self, 0, Some(src@), whole));
        Some(out)
    }

    /// The text of `self` in a context that accepts any operator.
    pub fn to_string(&self) -> (r: String)
        ensures
            r@ == spec_pretty(*self, 0),
    {
        let mut out = String::new();
        self.pretty(&mut out, 0);
        assert(out@ =~= spec_pretty(*self, 0));
        out
    }
}

} // verus!
