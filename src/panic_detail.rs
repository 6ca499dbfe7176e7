//! Details of a panic, kept for crash reports.
use vstd::prelude::*;
use vstd::string::*;

use backtrace::Backtrace;

use crate::mir::Span;
use crate::rewrite::{decimal_text, write_decimal};
use crate::text::{contains, has_infix, has_prefix, starts_with};

verus! {

#[verifier::external_type_specification]
#[verifier::external_body]
pub struct ExBacktrace(Backtrace);

/// What a panic carried, as far as it can be told apart.
#[derive(Clone, PartialEq, Eq, Debug)]
pub enum PanicPayload {
    /// A `&'static str` message.
    Str(String),
    /// A `String` message.
    Owned(String),
    /// Anything else, with its type id as text.
    Other(String),
}

/// The message of a panic: the text it carried, or a note naming the payload's type.
pub fn panic_to_string(e: &PanicPayload) -> (r: String)
    ensures
        r@ == match *e {
            PanicPayload::Str(s) => s@,
            PanicPayload::Owned(s) => s@,
            PanicPayload::Other(type_id) => "unknown error: "@ + type_id@,
        },
{
    match e {
        PanicPayload::Str(s) => s.clone(),
        PanicPayload::Owned(s) => s.clone(),
        PanicPayload::Other(type_id) => {
            let mut r = String::new();
            r.append("unknown error: ");
            r.append(type_id.as_str());
            r
        },
    }
}

/// Names what `str::trim` returns: the text without leading and trailing whitespace.
pub uninterp spec fn trimmed(s: Seq<char>) -> Seq<char>;

/// Relies on `str::trim`, which depends on the characters alone.
#[verifier::external_body]
fn trim(s: &str) -> (r: &str)
    ensures
        r@ == trimmed(s@),
{
    s.trim()
}

/// Relies on the `Debug` impl of `backtrace::Backtrace` to print its frames; the text depends
/// on the machine, so nothing is stated of it.
#[verifier::external_body]
fn backtrace_text(bt: &Backtrace) -> (r: String) {
    format!("{:?}", bt)
}

/// Detailed information about a panic.
pub struct PanicDetail {
    pub msg: String,
    pub loc: Option<String>,
    pub relevant_loc: Option<String>,
    pub backtrace: Option<Backtrace>,
    pub span: Span,
}

pub open spec fn opt_text(s: Option<String>) -> Seq<char> {
    match s {
        Some(t) => t@,
        None => "[unknown]"@,
    }
}

pub open spec fn span_text(s: Span) -> Seq<char> {
    decimal_text(s.file as nat) + ":"@ + decimal_text(s.lo as nat) + ".."@ + decimal_text(
        s.hi as nat,
    )
}

/// The lines of a full description, up to the backtrace.
pub open spec fn full_head(d: &PanicDetail) -> Seq<char> {
    "panic at "@ + opt_text(d.loc) + ": "@ + d.msg@ + "\n"@ + match d.relevant_loc {
        Some(r) => "related location: "@ + r@ + "\n"@,
        None => Seq::empty(),
    } + if d.span.lo == 0 && d.span.hi == 0 {
        Seq::empty()
    } else {
        "source location: "@ + span_text(d.span) + "\n"@
    }
}

impl PanicDetail {
    /// A detail with every part given.
    pub fn with_parts(
        msg: String,
        loc: Option<String>,
        relevant_loc: Option<String>,
        backtrace: Option<Backtrace>,
        span: Span,
    ) -> (r: PanicDetail)
        ensures
            r.msg == msg,
            r.loc == loc,
            r.relevant_loc == relevant_loc,
            r.backtrace == backtrace,
            r.span == span,
    {
        PanicDetail { msg, loc, relevant_loc, backtrace, span }
    }

    /// A detail holding only a message, with no location or backtrace.
    pub fn new(msg: String) -> (r: PanicDetail)
        ensures
            r.msg == msg,
            r.loc is None,
            r.relevant_loc is None,
            r.backtrace is None,
            r.span == (Span { file: 0, lo: 0, hi: 0 }),
    {
        PanicDetail { msg, loc: None, relevant_loc: None, backtrace: None, span: Span::dummy() }
    }

    pub fn has_backtrace(&self) -> (r: bool)
        ensures
            r == self.backtrace is Some,
    {
        self.backtrace.is_some()
    }

    /// A one-line description: the most relevant known location, then the trimmed message.
    pub fn to_string_short(&self) -> (r: String)
        ensures
            r@ == opt_text(
                if self.relevant_loc is Some {
                    self.relevant_loc
                } else {
                    self.loc
                },
            ) + ": "@ + trimmed(self.msg@),
    {
        let mut r = String::new();
        match &self.relevant_loc {
            Some(s) => r.append(s.as_str()),
            None => match &self.loc {
                Some(s) => r.append(s.as_str()),
                None => r.append("[unknown]"),
            },
        }
        r.append(": ");
        r.append(trim(self.msg.as_str()));
        r
    }

    fn write_loc_line(&self, s: &mut String)
        ensures
            final(s)@ == old(s)@ + "panic at "@ + opt_text(self.loc) + ": "@ + self.msg@ + "\n"@,
    {
        s.append("panic at ");
        match &self.loc {
            Some(l) => s.append(l.as_str()),
            None => s.append("[unknown]"),
        }
        s.append(": ");
        s.append(self.msg.as_str());
        s.append("\n");
    }

    fn write_related_line(&self, s: &mut String)
        ensures
            final(s)@ == old(s)@ + match self.relevant_loc {
                Some(r) => "related location: "@ + r@ + "\n"@,
                None => Seq::empty(),
            },
    {
        if let Some(relevant_loc) = &self.relevant_loc {
            s.append("related location: ");
            s.append(relevant_loc.as_str());
            s.append("\n");
            assert(s@ =~= old(s)@ + ("related location: "@ + relevant_loc@ + "\n"@));
        } else {
            assert(s@ =~= old(s)@ + Seq::<char>::empty());
        }
    }

    fn write_span_line(&self, s: &mut String)
        ensures
            final(s)@ == old(s)@ + if self.span.lo == 0 && self.span.hi == 0 {
                Seq::empty()
            } else {
                "source location: "@ + span_text(self.span) + "\n"@
            },
    {
        if !self.span.is_dummy() {
            s.append("source location: ");
            write_decimal(s, self.span.file);
            s.append(":");
            write_decimal(s, self.span.lo);
            s.append("..");
            write_decimal(s, self.span.hi);
            s.append("\n");
            assert(s@ =~= old(s)@ + ("source location: "@ + span_text(self.span) + "\n"@));
        } else {
            assert(s@ =~= old(s)@ + Seq::<char>::empty());
        }
    }

    /// A full description: location, message, related and source locations when known, and
    /// the backtrace if there is one.
    pub fn to_string_full(&self) -> (r: String)
        ensures
            self.backtrace is None ==> r@ == full_head(self),
            self.backtrace is Some ==> exists|t: Seq<char>| r@ == full_head(self) + t + "\n"@,
    {
        let mut s = String::new();
        self.write_loc_line(&mut s);
        self.write_related_line(&mut s);
        self.write_span_line(&mut s);
        assert(s@ =~= full_head(self));
        if let Some(bt) = &self.backtrace {
            let t = backtrace_text(bt);
            s.append(t.as_str());
            s.append("\n");
            assert(s@ =~= full_head(self) + t@ + "\n"@);
        }
        s
    }
}

/// One resolved symbol of a backtrace frame.
#[derive(Clone, PartialEq, Eq, Debug)]
pub struct SymbolInfo {
    pub name: Option<String>,
    pub filename: Option<String>,
    pub lineno: Option<u32>,
    pub colno: Option<u32>,
}

/// Relies on `backtrace::Backtrace::frames`, `BacktraceFrame::symbols` and the `name`,
/// `filename`, `lineno` and `colno` accessors of `BacktraceSymbol` to list the symbols of
/// all frames, innermost first.  What they hold depends on the machine, so nothing is
/// stated of them.
#[verifier::external_body]
fn backtrace_symbols(bt: &Backtrace) -> (r: Vec<SymbolInfo>) {
    bt.frames().iter().flat_map(|f| f.symbols()).map(|s| SymbolInfo {
        name: s.name().map(|n| n.to_string()),
        filename: s.filename().map(|p| p.display().to_string()),
        lineno: s.lineno(),
        colno: s.colno(),
    }).collect()
}

/// Symbols of the analysis itself, past the helpers and the panic machinery.
pub open spec fn is_relevant_symbol(name: Seq<char>) -> bool {
    has_prefix(name, "c2rust_analyze::dataflow"@) || has_prefix(name, "c2rust_analyze::borrowck"@)
        || has_prefix(name, "c2rust_analyze::rewrite"@) || has_infix(name, "type_of_rvalue"@)
        || has_infix(name, "TypeOf"@) || has_infix(name, "lty_project"@)
}

pub open spec fn opt_decimal(n: Option<u32>) -> Seq<char> {
    match n {
        Some(v) => decimal_text(v as nat),
        None => "0"@,
    }
}

/// `name @ file:line:col`, with unknown parts as `[unknown]` and `0`.
pub open spec fn symbol_text(name: Seq<char>, sym: SymbolInfo) -> Seq<char> {
    name + " @ "@ + opt_text(sym.filename) + ":"@ + opt_decimal(sym.lineno) + ":"@ + opt_decimal(
        sym.colno,
    )
}

/// The description of the first relevant symbol from index `i` on.
pub open spec fn first_relevant(syms: Seq<SymbolInfo>, i: int) -> Option<Seq<char>>
    decreases syms.len() - i,
{
    if i < 0 || i >= syms.len() {
        None
    } else {
        match syms[i].name {
            Some(n) => if is_relevant_symbol(n@) {
                Some(symbol_text(n@, syms[i]))
            } else {
                first_relevant(syms, i + 1)
            },
            None => first_relevant(syms, i + 1),
        }
    }
}

fn is_relevant_name(name: &str) -> (r: bool)
    ensures
        r == is_relevant_symbol(name@),
{
    starts_with(name, "c2rust_analyze::dataflow") || starts_with(name, "c2rust_analyze::borrowck")
        || starts_with(name, "c2rust_analyze::rewrite") || contains(name, "type_of_rvalue")
        || contains(name, "TypeOf") || contains(name, "lty_project")
}

fn write_opt_decimal(out: &mut String, n: Option<u32>)
    ensures
        final(out)@ == old(out)@ + opt_decimal(n),
{
    match n {
        Some(v) => write_decimal(out, v as usize),
        None => out.append("0"),
    }
}

fn describe_symbol(name: &str, sym: &SymbolInfo) -> (r: String)
    ensures
        r@ == symbol_text(name@, *sym),
{
    let mut r = String::new();
    r.append(name);
    r.append(" @ ");
    match &sym.filename {
        Some(f) => r.append(f.as_str()),
        None => r.append("[unknown]"),
    }
    r.append(":");
    write_opt_decimal(&mut r, sym.lineno);
    r.append(":");
    write_opt_decimal(&mut r, sym.colno);
    assert(r@ =~= symbol_text(name@, *sym));
    r
}

/// Describes the first symbol that belongs to the analysis itself, skipping helpers,
/// wrappers and the panic machinery.
pub fn relevant_loc(syms: &Vec<SymbolInfo>) -> (r: Option<String>)
    ensures
        match r {
            Some(s) => first_relevant(syms@, 0) == Some(s@),
            None => first_relevant(syms@, 0) is None,
        },
{
    let mut i: usize = 0;
    while i < syms.len()
        invariant
            i <= syms@.len(),
            first_relevant(syms@, 0) == first_relevant(syms@, i as int),
        decreases syms@.len() - i,
    {
        if let Some(name) = &syms[i].name {
            if is_relevant_name(name.as_str()) {
                return Some(describe_symbol(name.as_str(), &syms[i]));
            }
        }
        i = i + 1;
    }
    None
}

/// A guess at the first interesting location of a backtrace, for the short description of
/// a panic: the first relevant one among the symbols that the backtrace resolves to.
pub fn guess_relevant_loc(bt: &Backtrace) -> (r: Option<String>)
    ensures
        r is Some ==> exists|syms: Seq<SymbolInfo>| first_relevant(syms, 0) == Some(r->0@),
{
    let syms = backtrace_symbols(bt);
    relevant_loc(&syms)
}

} // verus!
