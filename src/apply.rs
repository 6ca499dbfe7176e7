//! Application of edits to source text in one linear pass per file.
use vstd::prelude::*;
use vstd::string::*;

use crate::mir::Span;
use crate::rewrite::{Rewrite, spans_within, spec_print};
use crate::text::{find, first_match_at, has_infix};

verus! {

/// Why a set of edits could not be applied to a file.
#[derive(Clone, Copy, PartialEq, Eq, Debug, Structural)]
pub enum ApplyError {
    /// The edit at this index ends before it starts, or past the end of its file.
    OutOfBounds(usize),
    /// The edit at the second index starts inside the edit at the first.
    Overlap(usize, usize),
    /// The edit at this index names no given file, or takes text from outside its file.
    BadSpan(usize),
}

/// The indices of the edits below `n` that fall in file `file`, in increasing order.
pub open spec fn file_indices(edits: Seq<(Span, String)>, file: usize, n: nat) -> Seq<usize>
    decreases n,
{
    if n == 0 {
        Seq::empty()
    } else if edits[n - 1].0.file == file {
        file_indices(edits, file, (n - 1) as nat).push((n - 1) as usize)
    } else {
        file_indices(edits, file, (n - 1) as nat)
    }
}

/// Edit `a` is ordered before edit `b`: by start, then by end.
pub open spec fn span_le(a: Span, b: Span) -> bool {
    a.lo < b.lo || (a.lo == b.lo && a.hi <= b.hi)
}

pub open spec fn sorted_by_span(edits: Seq<(Span, String)>, s: Seq<usize>) -> bool {
    forall|i: int, j: int|
        0 <= i < j < s.len() ==> span_le(#[trigger] edits[s[i] as int].0, #[trigger] edits[s[j] as int].0)
}

/// Each edit lies inside the text and ends no later than the next one starts.
pub open spec fn chained(edits: Seq<(Span, String)>, s: Seq<usize>, len: nat) -> bool {
    &&& forall|i: int|
        0 <= i < s.len() ==> #[trigger] edits[s[i] as int].0.lo <= edits[s[i] as int].0.hi <= len
    &&& forall|i: int|
        0 <= i < s.len() - 1 ==> #[trigger] edits[s[i] as int].0.hi <= edits[s[i + 1] as int].0.lo
}

/// Where the text resumes after the first `n` edits of `s`.
pub open spec fn resume_at(edits: Seq<(Span, String)>, s: Seq<usize>, n: int) -> int {
    if n <= 0 {
        0
    } else {
        edits[s[n - 1] as int].0.hi as int
    }
}

/// The output up to and including the replacement of the `n`th edit of `s`.
pub open spec fn spliced_head(text: Seq<char>, edits: Seq<(Span, String)>, s: Seq<usize>, n: nat) -> Seq<
    char,
>
    decreases n,
{
    if n == 0 {
        Seq::empty()
    } else {
        let e = edits[s[n - 1] as int];
        spliced_head(text, edits, s, (n - 1) as nat) + text.subrange(
            resume_at(edits, s, n - 1),
            e.0.lo as int,
        ) + e.1@
    }
}

/// The text with the edits of `s` applied in order.
pub open spec fn spliced(text: Seq<char>, edits: Seq<(Span, String)>, s: Seq<usize>) -> Seq<char> {
    spliced_head(text, edits, s, s.len()) + text.subrange(
        resume_at(edits, s, s.len() as int),
        text.len() as int,
    )
}

pub open spec fn starts_inside(a: Span, b: Span) -> bool {
    span_le(a, b) && b.lo < a.hi
}

fn span_less_eq(a: Span, b: Span) -> (r: bool)
    ensures
        r == span_le(a, b),
{
    a.lo < b.lo || (a.lo == b.lo && a.hi <= b.hi)
}

/// Sorts `idx`, a list of indices into `edits`, by their edits' spans.
fn sort_by_span(edits: &Vec<(Span, String)>, idx: Vec<usize>) -> (r: Vec<usize>)
    requires
        forall|i: int| 0 <= i < idx@.len() ==> #[trigger] idx@[i] < edits@.len(),
    ensures
        r@.to_multiset() == idx@.to_multiset(),
        sorted_by_span(edits@, r@),
        forall|i: int| 0 <= i < r@.len() ==> #[trigger] r@[i] < edits@.len(),
{
    let mut remaining = idx;
    let mut sorted: Vec<usize> = Vec::new();
    proof {
        vstd::seq_lib::lemma_multiset_commutative(sorted@, remaining@);
        assert(sorted@ + remaining@ =~= remaining@);
    }
    while remaining.len() > 0
        invariant
            (sorted@ + remaining@).to_multiset() == idx@.to_multiset(),
            sorted_by_span(edits@, sorted@),
            forall|i: int| 0 <= i < remaining@.len() ==> #[trigger] remaining@[i] < edits@.len(),
            forall|i: int| 0 <= i < sorted@.len() ==> #[trigger] sorted@[i] < edits@.len(),
            forall|i: int, j: int|
                0 <= i < sorted@.len() && 0 <= j < remaining@.len() ==> span_le(
                    #[trigger] edits@[sorted@[i] as int].0,
                    #[trigger] edits@[remaining@[j] as int].0,
                ),
        decreases remaining@.len(),
    {
        let mut m: usize = 0;
        let mut j: usize = 1;
        while j < remaining.len()
            invariant
                0 <= m < remaining@.len(),
                1 <= j <= remaining@.len(),
                forall|i: int| 0 <= i < remaining@.len() ==> #[trigger] remaining@[i] < edits@.len(),
                forall|k: int|
                    0 <= k < j ==> span_le(
                        edits@[remaining@[m as int] as int].0,
                        #[trigger] edits@[remaining@[k] as int].0,
                    ),
            decreases remaining@.len() - j,
        {
            if !span_less_eq(edits[remaining[m]].0, edits[remaining[j]].0) {
                m = j;
            }
            j = j + 1;
        }
        let ghost before_s = sorted@;
        let ghost before_r = remaining@;
        let e = remaining.remove(m);
        sorted.push(e);
        proof {
            vstd::seq_lib::lemma_multiset_commutative(before_s, before_r);
            vstd::seq_lib::lemma_multiset_commutative(sorted@, remaining@);
            vstd::seq_lib::to_multiset_remove(before_r, m as int);
            vstd::seq_lib::to_multiset_build(before_s, e);
            assert(sorted@ == before_s.push(e));
            assert(remaining@ == before_r.remove(m as int));
            vstd::seq_lib::to_multiset_contains(before_r, e);
            assert(before_r.contains(e));
            assert(before_r.to_multiset().count(e) > 0);
            assert(sorted@.to_multiset() == before_s.to_multiset().insert(e));
            assert(remaining@.to_multiset() == before_r.to_multiset().remove(e));
            assert((sorted@ + remaining@).to_multiset() =~= (before_s + before_r).to_multiset());
            assert forall|i: int, j: int|
                0 <= i < sorted@.len() && 0 <= j < remaining@.len() implies span_le(
                    #[trigger] edits@[sorted@[i] as int].0,
                    #[trigger] edits@[remaining@[j] as int].0,
                ) by {
                if j < m {
                    assert(remaining@[j] == before_r[j]);
                } else {
                    assert(remaining@[j] == before_r[j + 1]);
                }
            }
            assert forall|i: int, j: int|
                0 <= i < j < sorted@.len() implies span_le(
                    #[trigger] edits@[sorted@[i] as int].0,
                    #[trigger] edits@[sorted@[j] as int].0,
                ) by {
                if j < sorted@.len() - 1 {
                    assert(sorted@[i] == before_s[i] && sorted@[j] == before_s[j]);
                } else {
                    assert(sorted@[i] == before_s[i]);
                }
            }
        }
    }
    assert(sorted@ + remaining@ =~= sorted@);
    sorted
}

/// `out` is `text` with the edits of `file` applied: in order of their spans, each inside
/// the text and none starting before the previous one ends.
pub open spec fn applied(text: Seq<char>, edits: Seq<(Span, String)>, file: usize, out: Seq<char>) -> bool {
    exists|s: Seq<usize>|
        #![trigger spliced(text, edits, s)]
        s.to_multiset() == file_indices(edits, file, edits.len()).to_multiset() && sorted_by_span(
            edits,
            s,
        ) && chained(edits, s, text.len()) && out == spliced(text, edits, s)
}

/// `e` names edits of `file` that cannot be applied to a text of `len` characters.
pub open spec fn apply_error(len: nat, edits: Seq<(Span, String)>, file: usize, e: ApplyError) -> bool {
    match e {
        ApplyError::OutOfBounds(k) => k < edits.len() && edits[k as int].0.file == file && !(
        edits[k as int].0.lo <= edits[k as int].0.hi <= len),
        ApplyError::Overlap(a, b) => a != b && a < edits.len() && b < edits.len() && edits[a as int].0.file
            == file && edits[b as int].0.file == file && starts_inside(
            edits[a as int].0,
            edits[b as int].0,
        ),
        ApplyError::BadSpan(_) => false,
    }
}

proof fn lemma_file_indices(edits: Seq<(Span, String)>, file: usize, n: nat)
    requires
        n <= edits.len() <= usize::MAX,
    ensures
        forall|i: int|
            0 <= i < file_indices(edits, file, n).len() ==> #[trigger] file_indices(edits, file, n)[i]
                < n && edits[file_indices(edits, file, n)[i] as int].0.file == file,
        forall|i: int, j: int|
            0 <= i < j < file_indices(edits, file, n).len() ==> #[trigger] file_indices(
                edits,
                file,
                n,
            )[i] < #[trigger] file_indices(edits, file, n)[j],
    decreases n,
{
    if n > 0 {
        lemma_file_indices(edits, file, (n - 1) as nat);
        let prev = file_indices(edits, file, (n - 1) as nat);
        let fi = file_indices(edits, file, n);
        if edits[n - 1].0.file == file {
            assert(fi == prev.push((n - 1) as usize));
            assert forall|i: int| 0 <= i < fi.len() implies #[trigger] fi[i] < n && edits[fi[i] as int].0.file
                == file by {
                if i < prev.len() {
                    assert(fi[i] == prev[i]);
                }
            }
            assert forall|i: int, j: int| 0 <= i < j < fi.len() implies #[trigger] fi[i] < #[trigger] fi[j] by {
                assert(fi[i] == prev[i]);
                if j < prev.len() {
                    assert(fi[j] == prev[j]);
                }
            }
        } else {
            assert(fi == prev);
        }
    }
}

/// An arrangement of the file's edits holds each of them once.
proof fn lemma_arrangement(edits: Seq<(Span, String)>, file: usize, s: Seq<usize>)
    requires
        s.to_multiset() == file_indices(edits, file, edits.len()).to_multiset(),
        edits.len() <= usize::MAX,
    ensures
        s.no_duplicates(),
        forall|i: int|
            0 <= i < s.len() ==> #[trigger] s[i] < edits.len() && edits[s[i] as int].0.file == file,
{
    let fi = file_indices(edits, file, edits.len());
    lemma_file_indices(edits, file, edits.len());
    assert(fi.no_duplicates()) by {
        assert forall|i: int, j: int| 0 <= i < fi.len() && 0 <= j < fi.len() && i != j implies fi[i]
            != fi[j] by {
            if i < j {
                assert(fi[i] < fi[j]);
            } else {
                assert(fi[j] < fi[i]);
            }
        }
    }
    fi.lemma_multiset_has_no_duplicates();
    s.lemma_multiset_has_no_duplicates_conv();
    assert forall|i: int| 0 <= i < s.len() implies #[trigger] s[i] < edits.len() && edits[s[i] as int].0.file
        == file by {
        vstd::seq_lib::to_multiset_contains(s, s[i]);
        vstd::seq_lib::to_multiset_contains(fi, s[i]);
        assert(s.contains(s[i]));
        let k = choose|k: int| 0 <= k < fi.len() && fi[k] == s[i];
    }
}

fn collect_file_indices(edits: &Vec<(Span, String)>, file: usize) -> (r: Vec<usize>)
    ensures
        r@ == file_indices(edits@, file, edits@.len()),
{
    let mut r: Vec<usize> = Vec::new();
    let mut k: usize = 0;
    while k < edits.len()
        invariant
            k <= edits@.len(),
            r@ == file_indices(edits@, file, k as nat),
        decreases edits@.len() - k,
    {
        if edits[k].0.file == file {
            r.push(k);
        }
        k = k + 1;
    }
    r
}

/// Applies the edits of `file` to `text`: the text is copied unchanged outside the edited
/// spans, and each span is replaced by its edit's text exactly once.  Fails when an edit
/// lies outside the text or starts inside another.
pub fn apply_to_file(text: &String, edits: &Vec<(Span, String)>, file: usize) -> (r: Result<
    String,
    ApplyError,
>)
    ensures
        match r {
            Ok(out) => applied(text@, edits@, file, out@),
            Err(e) => apply_error(text@.len(), edits@, file, e),
        },
{
    let idx = collect_file_indices(edits, file);
    assert(edits@.len() == edits.len());
    proof {
        lemma_file_indices(edits@, file, edits@.len());
    }
    let s = sort_by_span(edits, idx);
    proof {
        lemma_arrangement(edits@, file, s@);
    }
    let len = text.as_str().unicode_len();
    let mut out = String::new();
    let mut pos: usize = 0;
    let mut i: usize = 0;
    while i < s.len()
        invariant
            i <= s@.len(),
            len == text@.len(),
            pos <= len,
            pos == resume_at(edits@, s@, i as int),
            out@ == spliced_head(text@, edits@, s@, i as nat),
            forall|k: int|
                0 <= k < i ==> #[trigger] edits@[s@[k] as int].0.lo <= edits@[s@[k] as int].0.hi
                    <= len,
            forall|k: int|
                0 <= k < i - 1 ==> #[trigger] edits@[s@[k] as int].0.hi <= edits@[s@[k
                    + 1] as int].0.lo,
            s@.no_duplicates(),
            sorted_by_span(edits@, s@),
            forall|k: int|
                0 <= k < s@.len() ==> #[trigger] s@[k] < edits@.len() && edits@[s@[k] as int].0.file
                    == file,
        decreases s@.len() - i,
    {
        let k = s[i];
        let sp = edits[k].0;
        if sp.lo > sp.hi || sp.hi > len {
            return Err(ApplyError::OutOfBounds(k));
        }
        if sp.lo < pos {
            assert(i > 0);
            assert(span_le(edits@[s@[i - 1] as int].0, edits@[s@[i as int] as int].0));
            return Err(ApplyError::Overlap(s[i - 1], k));
        }
        out.append(text.as_str().substring_char(pos, sp.lo));
        out.append(edits[k].1.as_str());
        pos = sp.hi;
        i = i + 1;
        assert(out@ =~= spliced_head(text@, edits@, s@, i as nat));
    }
    out.append(text.as_str().substring_char(pos, len));
    assert(out@ =~= spliced(text@, edits@, s@));
    Ok(out)
}

/// Applies the edits to the files they name, one pass per file; the `i`th result is the new
/// text of the `i`th file.  Edits that name no given file are ignored.
pub fn apply_rewrites(files: &Vec<String>, edits: &Vec<(Span, String)>) -> (r: Result<
    Vec<String>,
    ApplyError,
>)
    ensures
        match r {
            Ok(out) => out@.len() == files@.len() && forall|f: int|
                0 <= f < files@.len() ==> applied(
                    #[trigger] files@[f]@,
                    edits@,
                    f as usize,
                    out@[f]@,
                ),
            Err(e) => exists|f: int|
                0 <= f < files@.len() && apply_error(#[trigger] files@[f]@.len(), edits@, f as usize, e),
        },
{
    let mut out: Vec<String> = Vec::new();
    let mut f: usize = 0;
    while f < files.len()
        invariant
            f <= files@.len(),
            out@.len() == f,
            forall|g: int|
                0 <= g < f ==> applied(#[trigger] files@[g]@, edits@, g as usize, out@[g]@),
        decreases files@.len() - f,
    {
        match apply_to_file(&files[f], edits, f) {
            Ok(text) => {
                out.push(text);
            },
            Err(e) => {
                assert(apply_error(files@[f as int]@.len(), edits@, f, e));
                return Err(e);
            },
        }
        f = f + 1;
    }
    Ok(out)
}

proof fn lemma_identity_head(text: Seq<char>, edits: Seq<(Span, String)>, s: Seq<usize>, n: nat)
    requires
        n <= s.len(),
        chained(edits, s, text.len()),
        forall|i: int|
            0 <= i < s.len() ==> #[trigger] edits[s[i] as int].1@ == text.subrange(
                edits[s[i] as int].0.lo as int,
                edits[s[i] as int].0.hi as int,
            ),
    ensures
        spliced_head(text, edits, s, n) == text.subrange(0, resume_at(edits, s, n as int)),
        resume_at(edits, s, n as int) <= text.len(),
    decreases n,
{
    if n > 0 {
        lemma_identity_head(text, edits, s, (n - 1) as nat);
        let e = edits[s[n - 1] as int];
        if n > 1 {
            assert(edits[s[n - 2] as int].0.hi <= edits[s[(n - 2) + 1] as int].0.lo);
        }
        assert(e.0.lo <= e.0.hi <= text.len());
        assert(spliced_head(text, edits, s, n) =~= text.subrange(0, resume_at(edits, s, n as int)));
    }
}

/// Edits whose replacements are the very text they replace give back the text unchanged.
pub proof fn lemma_identity_edits_round_trip(
    text: Seq<char>,
    edits: Seq<(Span, String)>,
    file: usize,
    out: Seq<char>,
)
    requires
        edits.len() <= usize::MAX,
        applied(text, edits, file, out),
        forall|k: int|
            0 <= k < edits.len() && #[trigger] edits[k].0.file == file ==> edits[k].1@
                == text.subrange(edits[k].0.lo as int, edits[k].0.hi as int),
    ensures
        out == text,
{
    let s = choose|s: Seq<usize>|
        s.to_multiset() == file_indices(edits, file, edits.len()).to_multiset() && sorted_by_span(
            edits,
            s,
        ) && chained(edits, s, text.len()) && out == #[trigger] spliced(text, edits, s);
    lemma_arrangement(edits, file, s);
    assert forall|i: int| 0 <= i < s.len() implies #[trigger] edits[s[i] as int].1@ == text.subrange(
        edits[s[i] as int].0.lo as int,
        edits[s[i] as int].0.hi as int,
    ) by {
        assert(edits[s[i] as int].0.file == file);
    }
    lemma_identity_head(text, edits, s, s.len());
    assert(out =~= text);
}

/// A line of a rewritten file as it is shown for debugging: from the first `// CHECK` on, a
/// test directive is replaced by a note, so that it cannot match its own listing.
pub fn omit_filecheck_directive(line: &str) -> (r: String)
    ensures
        !has_infix(line@, "// CHECK"@) ==> r@ == line@,
        forall|i: int|
            first_match_at(line@, "// CHECK"@, i) ==> r@ == line@.subrange(0, i)
                + "// (FileCheck directive omitted)"@,
{
    match find(line, "// CHECK") {
        Some(i) => {
            let mut r = String::new();
            r.append(line.substring_char(0, i));
            r.append("// (FileCheck directive omitted)");
            proof {
                assert forall|j: int| first_match_at(line@, "// CHECK"@, j) implies j == i by {
                    if j < i {
                        assert(line@.subrange(j, j + "// CHECK"@.len()) != "// CHECK"@);
                    } else if j > i {
                        assert(line@.subrange(i as int, i + "// CHECK"@.len()) != "// CHECK"@);
                    }
                }
            }
            r
        },
        None => line.to_owned(),
    }
}

/// The rewrite of edit `k` renders against its file.
pub open spec fn renders(files: Seq<String>, rewrites: Seq<(Span, Rewrite)>, k: int) -> bool {
    rewrites[k].0.file < files.len() && spans_within(
        rewrites[k].1,
        files[rewrites[k].0.file as int]@.len(),
        rewrites[k].0,
    )
}

/// Edit `k` is rewrite `k` rendered against its file.
pub open spec fn rendered_as(
    files: Seq<String>,
    rewrites: Seq<(Span, Rewrite)>,
    edits: Seq<(Span, String)>,
    k: int,
) -> bool {
    renders(files, rewrites, k) && edits[k].0 == rewrites[k].0 && edits[k].1@ == spec_print(
        rewrites[k].1,
        0,
        Some(files[rewrites[k].0.file as int]@),
        rewrites[k].0,
    )
}

/// Renders each rewrite against the text of its file: the rewritten expression and its
/// subexpressions keep the text they have in the file.  Fails on the first rewrite that names no given
/// file or takes text from outside its file.
pub fn render_rewrites(files: &Vec<String>, rewrites: &Vec<(Span, Rewrite)>) -> (r: Result<
    Vec<(Span, String)>,
    ApplyError,
>)
    ensures
        match r {
            Ok(edits) => edits@.len() == rewrites@.len() && forall|k: int|
                0 <= k < rewrites@.len() ==> #[trigger] rendered_as(files@, rewrites@, edits@, k),
            Err(e) => e matches ApplyError::BadSpan(k) && k < rewrites@.len() && !renders(
                files@,
                rewrites@,
                k as int,
            ),
        },
{
    let mut edits: Vec<(Span, String)> = Vec::new();
    let mut k: usize = 0;
    while k < rewrites.len()
        invariant
            k <= rewrites@.len(),
            edits@.len() == k,
            forall|j: int|
                0 <= j < k ==> #[trigger] rendered_as(files@, rewrites@, edits@, j),
        decreases rewrites@.len() - k,
    {
        let span = rewrites[k].0;
        if span.file >= files.len() {
            return Err(ApplyError::BadSpan(k));
        }
        let ghost before = edits@;
        let text = match rewrites[k].1.render(files[span.file].as_str(), span) {
            Some(text) => text,
            None => {
                return Err(ApplyError::BadSpan(k));
            },
        };
        assert(renders(files@, rewrites@, k as int));
        assert(text@ == spec_print(rewrites@[k as int].1, 0, Some(files@[span.file as int]@), span));
        edits.push((span, text));
        assert forall|j: int| 0 <= j < k + 1 implies #[trigger] rendered_as(files@, rewrites@, edits@, j) by {
            if j < k {
                assert(rendered_as(files@, rewrites@, before, j));
                assert(edits@[j] == before[j]);
            } else {
                assert(edits@[j] == (span, text));
            }
        }
        k = k + 1;
    }
    let ghost view = edits@;
    let r = Ok(edits);
    assert(r matches Ok(e) && e@ == view);
    r
}

/// Rewrites that all keep their expression unchanged, rendered and then applied to a file,
/// give back that file's text.
pub proof fn lemma_identity_rewrites_round_trip(
    files: Seq<String>,
    rewrites: Seq<(Span, Rewrite)>,
    edits: Seq<(Span, String)>,
    file: usize,
    out: Seq<char>,
)
    requires
        edits.len() == rewrites.len() <= usize::MAX,
        forall|k: int| 0 <= k < rewrites.len() ==> #[trigger] rendered_as(files, rewrites, edits, k),
        forall|k: int| 0 <= k < rewrites.len() ==> (#[trigger] rewrites[k]).1 is Identity,
        file < files.len(),
        applied(files[file as int]@, edits, file, out),
    ensures
        out == files[file as int]@,
{
    let text = files[file as int]@;
    assert forall|k: int|
        0 <= k < edits.len() && #[trigger] edits[k].0.file == file implies edits[k].1@
            == text.subrange(edits[k].0.lo as int, edits[k].0.hi as int) by {
        assert(rendered_as(files, rewrites, edits, k));
        assert(rewrites[k].1 is Identity);
    }
    lemma_identity_edits_round_trip(text, edits, file, out);
}

} // verus!
