//! Diagnostics a language server published, kept per buffer in position
//! order.
use vstd::prelude::*;
use crate::buffer::Buffer;
use crate::paths::{path_eq, path_equal};
use crate::strs::{chars_of, str_to_string, utf16_len};
use crate::text::{line_count, line_start, lemma_line_start_bounds, nl_count};

verus! {

/// How serious a diagnostic is.
#[derive(Debug, Clone, Copy, PartialEq, Eq, Structural)]
pub enum Severity {
    Error,
    Warning,
    Info,
    Hint,
}

/// A diagnostic on one line of a buffer: the char columns it underlines,
/// its severity, its message and where it came from.
#[derive(Debug, Clone)]
pub struct Diagnostic {
    pub line: usize,
    pub col_start: usize,
    pub col_end: usize,
    pub severity: Severity,
    pub message: String,
    pub source: Option<String>,
}

/// A diagnostic as values.
pub struct DiagnosticView {
    pub line: usize,
    pub col_start: usize,
    pub col_end: usize,
    pub severity: Severity,
    pub message: Seq<char>,
    pub source: Option<Seq<char>>,
}

impl View for Diagnostic {
    type V = DiagnosticView;

    open spec fn view(&self) -> DiagnosticView {
        DiagnosticView {
            line: self.line,
            col_start: self.col_start,
            col_end: self.col_end,
            severity: self.severity,
            message: self.message@,
            source: match self.source {
                Some(s) => Some(s@),
                None => None,
            },
        }
    }
}

/// Diagnostics as values.
pub open spec fn diag_views(s: Seq<Diagnostic>) -> Seq<DiagnosticView> {
    s.map_values(|d: Diagnostic| d@)
}

/// Whether `a` comes before `b` by position: line, then start column.
pub open spec fn pos_lt(a: DiagnosticView, b: DiagnosticView) -> bool {
    a.line < b.line || (a.line == b.line && a.col_start < b.col_start)
}

/// `order` lists every index of `s` once, by position, equal positions in
/// the order they came (a stable sort).
pub open spec fn stable_order(s: Seq<DiagnosticView>, order: Seq<usize>) -> bool {
    &&& order.len() == s.len()
    &&& forall|k: int| 0 <= k < order.len() ==> order[k] < s.len()
    &&& forall|j: int, k: int|
        0 <= j < k < order.len() ==> pos_lt(s[order[j] as int], s[order[k] as int]) || (!pos_lt(
            s[order[k] as int],
            s[order[j] as int],
        ) && order[j] < order[k])
}

/// A copy of `d`.
fn copy_diagnostic(d: &Diagnostic) -> (r: Diagnostic)
    ensures
        r@ == d@,
{
    Diagnostic {
        line: d.line,
        col_start: d.col_start,
        col_end: d.col_end,
        severity: d.severity,
        message: str_to_string(d.message.as_str()),
        source: match &d.source {
            Some(s) => Some(str_to_string(s.as_str())),
            None => None,
        },
    }
}

/// Whether diagnostic `a` goes before `b` when sorting: earlier position,
/// or the same position and earlier in the list.
fn sorts_before(d: &Vec<Diagnostic>, a: usize, b: usize) -> (r: bool)
    requires
        a < d@.len(),
        b < d@.len(),
    ensures
        r == (pos_lt(d@[a as int]@, d@[b as int]@) || (!pos_lt(d@[b as int]@, d@[a as int]@) && a < b)),
{
    let x = &d[a];
    let y = &d[b];
    (x.line < y.line || (x.line == y.line && x.col_start < y.col_start)) || (!(y.line < x.line || (y.line
        == x.line && y.col_start < x.col_start)) && a < b)
}

/// `d` sorted by position, stably.
fn sort_by_position(d: &Vec<Diagnostic>) -> (r: Vec<Diagnostic>)
    ensures
        exists|order: Seq<usize>|
            stable_order(diag_views(d@), order) && diag_views(r@) == order.map_values(
                |i: usize| diag_views(d@)[i as int],
            ),
{
    let ghost s = diag_views(d@);
    let n = d.len();
    let mut order: Vec<usize> = Vec::new();
    let mut i: usize = 0;
    while i < n
        invariant
            n == d@.len(),
            s == diag_views(d@),
            i <= n,
            order@.len() == i,
            forall|k: int| 0 <= k < order@.len() ==> order@[k] < i,
            forall|a: int, b: int| 0 <= a < b < order@.len() ==> order@[a] != order@[b],
            forall|j: int, k: int|
                0 <= j < k < order@.len() ==> pos_lt(s[order@[j] as int], s[order@[k] as int]) || (!pos_lt(
                    s[order@[k] as int],
                    s[order@[j] as int],
                ) && order@[j] < order@[k]),
        decreases n - i,
    {
        let mut p: usize = 0;
        while p < order.len() && !sorts_before(d, i, order[p])
            invariant
                n == d@.len(),
                s == diag_views(d@),
                i < n,
                p <= order@.len(),
                forall|k: int| 0 <= k < order@.len() ==> order@[k] < i,
                forall|k: int|
                    0 <= k < p ==> pos_lt(s[order@[k] as int], s[i as int]) || (!pos_lt(s[i as int], s[order@[k] as int])
                        && order@[k] < i),
            decreases order@.len() - p,
        {
            proof {
                assert(s[i as int] == d@[i as int]@);
                assert(s[order@[p as int] as int] == d@[order@[p as int] as int]@);
            }
            p = p + 1;
        }
        proof {
            if p < order@.len() {
                assert(s[i as int] == d@[i as int]@);
                assert(s[order@[p as int] as int] == d@[order@[p as int] as int]@);
            }
        }
        let ghost old_order = order@;
        order.insert(p, i);
        proof {
            assert forall|j: int, k: int| 0 <= j < k < order@.len() implies pos_lt(s[order@[j] as int], s[order@[k] as int]) || (
            !pos_lt(s[order@[k] as int], s[order@[j] as int]) && order@[j] < order@[k]) by {
                if j == p && k > p {
                    let m = old_order[k - 1];
                    let q = old_order[p as int];
                    assert(pos_lt(s[i as int], s[q as int]) || (!pos_lt(s[q as int], s[i as int]) && i < q));
                    if k - 1 > p {
                        assert(pos_lt(s[q as int], s[m as int]) || (!pos_lt(s[m as int], s[q as int]) && q < m));
                    }
                } else if j < p && k > p {
                    let a = old_order[j];
                    let m = old_order[k - 1];
                    assert(pos_lt(s[a as int], s[m as int]) || (!pos_lt(s[m as int], s[a as int]) && a < m));
                }
            }
        }
        i = i + 1;
    }
    let mut r: Vec<Diagnostic> = Vec::new();
    let mut k: usize = 0;
    while k < n
        invariant
            n == d@.len(),
            s == diag_views(d@),
            order@.len() == n,
            forall|m: int| 0 <= m < order@.len() ==> order@[m] < n,
            k <= n,
            diag_views(r@) == order@.take(k as int).map_values(|i: usize| s[i as int]),
        decreases n - k,
    {
        let c = copy_diagnostic(&d[order[k]]);
        let ghost before = r@;
        r.push(c);
        proof {
            assert(diag_views(r@) =~= diag_views(before).push(c@));
            assert(order@.take(k as int + 1).map_values(|i: usize| s[i as int]) =~= order@.take(k as int).map_values(
                |i: usize| s[i as int],
            ).push(s[order@[k as int] as int]));
        }
        k = k + 1;
    }
    proof {
        assert(order@.take(n as int) =~= order@);
        assert(stable_order(s, order@));
    }
    r
}

/// The number of diagnostics of severity `sev` in `s`.
pub open spec fn count_severity(s: Seq<DiagnosticView>, sev: Severity) -> nat
    decreases s.len(),
{
    if s.len() == 0 {
        0
    } else {
        count_severity(s.drop_last(), sev) + if s.last().severity == sev {
            1nat
        } else {
            0nat
        }
    }
}

/// The number of diagnostics of `s` on lines before `line`.
pub open spec fn count_before_line(s: Seq<DiagnosticView>, line: int) -> nat
    decreases s.len(),
{
    if s.len() == 0 {
        0
    } else {
        count_before_line(s.drop_last(), line) + if s.last().line < line {
            1nat
        } else {
            0nat
        }
    }
}

/// Diagnostics per buffer, each buffer's in position order.
pub struct DiagnosticStore {
    entries: Vec<Vec<Diagnostic>>,
}

impl DiagnosticStore {
    /// The diagnostics of each buffer, by buffer id.
    pub closed spec fn entries_view(&self) -> Seq<Seq<DiagnosticView>> {
        self.entries@.map_values(|v: Vec<Diagnostic>| diag_views(v@))
    }

    /// The diagnostics of buffer `buf_id`: none for a buffer never set.
    pub open spec fn buffer_view(&self, buf_id: int) -> Seq<DiagnosticView> {
        if 0 <= buf_id < self.entries_view().len() {
            self.entries_view()[buf_id]
        } else {
            Seq::empty()
        }
    }

    /// Each buffer's diagnostics are sorted by line.
    pub open spec fn wf(&self) -> bool {
        forall|b: int, j: int, k: int|
            0 <= b < self.entries_view().len() && 0 <= j < k < self.entries_view()[b].len()
                ==> #[trigger] self.entries_view()[b][j].line <= #[trigger] self.entries_view()[b][k].line
    }

    /// No diagnostics.
    pub fn new() -> (s: Self)
        ensures
            s.wf(),
            s.entries_view() == Seq::<Seq<DiagnosticView>>::empty(),
    {
        let s = DiagnosticStore { entries: Vec::new() };
        assert(s.entries_view() =~= Seq::<Seq<DiagnosticView>>::empty());
        s
    }

    fn ensure_capacity(&mut self, buf_id: usize)
        requires
            buf_id < usize::MAX,
        ensures
            final(self).entries_view().len() == if old(self).entries_view().len() <= buf_id {
                buf_id + 1
            } else {
                old(self).entries_view().len() as int
            },
            forall|b: int| 0 <= b < old(self).entries_view().len() ==> final(self).entries_view()[b] == old(
                self,
            ).entries_view()[b],
            forall|b: int|
                old(self).entries_view().len() <= b < final(self).entries_view().len() ==> final(self).entries_view()[b]
                    == Seq::<DiagnosticView>::empty(),
    {
        while self.entries.len() <= buf_id
            invariant
                buf_id < usize::MAX,
                old(self).entries_view().len() <= self.entries_view().len(),
                self.entries_view().len() <= buf_id + 1 || self.entries_view().len() == old(self).entries_view().len(),
                forall|b: int| 0 <= b < old(self).entries_view().len() ==> self.entries_view()[b] == old(
                    self,
                ).entries_view()[b],
                forall|b: int|
                    old(self).entries_view().len() <= b < self.entries_view().len() ==> self.entries_view()[b]
                        == Seq::<DiagnosticView>::empty(),
            decreases buf_id + 1 - self.entries@.len(),
        {
            let v: Vec<Diagnostic> = Vec::new();
            let ghost before = self.entries_view();
            self.entries.push(v);
            proof {
                assert(diag_views(v@) =~= Seq::<DiagnosticView>::empty());
                assert(self.entries_view() =~= before.push(Seq::<DiagnosticView>::empty()));
            }
        }
    }

    /// Replaces the diagnostics of buffer `buf_id` with `diags`, sorted by
    /// position (stably).
    pub fn set_for_buffer(&mut self, buf_id: usize, diags: Vec<Diagnostic>)
        requires
            old(self).wf(),
            buf_id < usize::MAX,
        ensures
            final(self).wf(),
            final(self).entries_view().len() == if old(self).entries_view().len() <= buf_id {
                buf_id + 1
            } else {
                old(self).entries_view().len() as int
            },
            forall|b: int|
                0 <= b < final(self).entries_view().len() && b != buf_id ==> final(self).entries_view()[b]
                    == old(self).buffer_view(b),
            exists|order: Seq<usize>|
                stable_order(diag_views(diags@), order) && final(self).entries_view()[buf_id as int]
                    == order.map_values(|i: usize| diag_views(diags@)[i as int]),
    {
        self.ensure_capacity(buf_id);
        let ghost mid = self.entries_view();
        let sorted = sort_by_position(&diags);
        let ghost sv = diag_views(sorted@);
        self.entries.set(buf_id, sorted);
        proof {
            assert(self.entries_view() =~= mid.update(buf_id as int, sv));
            let s = diag_views(diags@);
            let order = choose|order: Seq<usize>|
                stable_order(s, order) && sv == order.map_values(|i: usize| s[i as int]);
            assert(self.entries_view()[buf_id as int] == sv);
            assert forall|b: int, j: int, k: int|
                0 <= b < self.entries_view().len() && 0 <= j < k < self.entries_view()[b].len()
                    implies #[trigger] self.entries_view()[b][j].line <= #[trigger] self.entries_view()[b][k].line by {
                if b == buf_id {
                    assert(sv[j] == s[order[j] as int]);
                    assert(sv[k] == s[order[k] as int]);
                    assert(pos_lt(s[order[j] as int], s[order[k] as int]) || (!pos_lt(s[order[k] as int], s[order[j] as int])
                        && order[j] < order[k]));
                    assert(self.entries_view()[b] == sv);
                } else if b < old(self).entries_view().len() {
                    assert(self.entries_view()[b] == old(self).entries_view()[b]);
                    assert(old(self).entries_view()[b][j].line <= old(self).entries_view()[b][k].line);
                } else {
                    assert(self.entries_view()[b] == mid[b]);
                    assert(mid[b].len() == 0);
                }
            }
        }
    }

    /// The diagnostics of buffer `buf_id` (none for an unknown buffer).
    pub fn get_for_buffer(&self, buf_id: usize) -> (r: &[Diagnostic])
        ensures
            diag_views(r@) == self.buffer_view(buf_id as int),
    {
        if buf_id < self.entries.len() {
            self.entries[buf_id].as_slice()
        } else {
            let e: &[Diagnostic] = &[];
            assert(diag_views(e@) =~= Seq::<DiagnosticView>::empty());
            e
        }
    }

    /// The numbers of errors and of warnings in buffer `buf_id`.
    pub fn counts_for_buffer(&self, buf_id: usize) -> (r: (usize, usize))
        ensures
            r.0 == count_severity(self.buffer_view(buf_id as int), Severity::Error),
            r.1 == count_severity(self.buffer_view(buf_id as int), Severity::Warning),
    {
        let diags = self.get_for_buffer(buf_id);
        let ghost s = diag_views(diags@);
        let mut errors: usize = 0;
        let mut warnings: usize = 0;
        let mut i: usize = 0;
        while i < diags.len()
            invariant
                s == diag_views(diags@),
                i <= diags@.len(),
                errors == count_severity(s.take(i as int), Severity::Error),
                warnings == count_severity(s.take(i as int), Severity::Warning),
                errors <= i,
                warnings <= i,
            decreases diags@.len() - i,
        {
            proof {
                assert(s.take(i as int + 1).drop_last() =~= s.take(i as int));
                assert(s.take(i as int + 1).last() == diags@[i as int]@);
            }
            if diags[i].severity == Severity::Error {
                errors = errors + 1;
            }
            if diags[i].severity == Severity::Warning {
                warnings = warnings + 1;
            }
            i = i + 1;
        }
        proof {
            assert(s.take(diags@.len() as int) =~= s);
        }
        (errors, warnings)
    }

    /// The first position in `d` from which every diagnostic is on a line
    /// at or after `line` (the list being sorted by line).
    fn first_at_or_after(d: &[Diagnostic], line: usize) -> (r: usize)
        requires
            forall|j: int, k: int| 0 <= j < k < d@.len() ==> #[trigger] d@[j].line <= #[trigger] d@[k].line,
        ensures
            r <= d@.len(),
            forall|k: int| 0 <= k < r ==> d@[k].line < line,
            forall|k: int| r <= k < d@.len() ==> d@[k].line >= line,
    {
        let mut lo: usize = 0;
        let mut hi: usize = d.len();
        while lo < hi
            invariant
                lo <= hi <= d@.len(),
                forall|j: int, k: int| 0 <= j < k < d@.len() ==> #[trigger] d@[j].line <= #[trigger] d@[k].line,
                forall|k: int| 0 <= k < lo ==> d@[k].line < line,
                forall|k: int| hi <= k < d@.len() ==> d@[k].line >= line,
            decreases hi - lo,
        {
            let mid = lo + (hi - lo) / 2;
            if d[mid].line < line {
                lo = mid + 1;
            } else {
                hi = mid;
            }
        }
        lo
    }

    /// The diagnostics of buffer `buf_id` on lines `start_line` to
    /// `end_line`, both included, in order.
    pub fn for_line_range(&self, buf_id: usize, start_line: usize, end_line: usize) -> (r: &[Diagnostic])
        requires
            self.wf(),
            forall|k: int|
                0 <= k < self.buffer_view(buf_id as int).len() ==> !(end_line < #[trigger] self.buffer_view(
                    buf_id as int,
                )[k].line < start_line),
        ensures
            diag_views(r@) == self.buffer_view(buf_id as int).filter(
                |d: DiagnosticView| start_line <= d.line <= end_line,
            ),
    {
        let diags = self.get_for_buffer(buf_id);
        let ghost s = diag_views(diags@);
        proof {
            assert forall|j: int, k: int| 0 <= j < k < diags@.len() implies #[trigger] diags@[j].line <= #[trigger] diags@[k].line by {
                assert(s[j] == diags@[j]@);
                assert(s[k] == diags@[k]@);
                if buf_id < self.entries_view().len() {
                    assert(self.entries_view()[buf_id as int][j].line <= self.entries_view()[buf_id as int][k].line);
                }
            }
        }
        if diags.len() == 0 {
            let e: &[Diagnostic] = &[];
            proof {
                assert(diag_views(e@) =~= s.filter(|d: DiagnosticView| start_line <= d.line <= end_line));
            }
            return e;
        }
        let first = Self::first_at_or_after(diags, start_line);
        let last = if end_line < usize::MAX {
            Self::first_at_or_after(diags, end_line + 1)
        } else {
            diags.len()
        };
        proof {
            if first > last {
                assert(s[last as int] == diags@[last as int]@);
                assert(!(end_line < self.buffer_view(buf_id as int)[last as int].line < start_line));
                assert(false);
            }
        }
        let r = &diags[first..last];
        proof {
            let f = |d: DiagnosticView| start_line <= d.line <= end_line;
            assert forall|k: int| 0 <= k < s.len() implies f(s[k]) == (first <= k < last) by {
                assert(s[k] == diags@[k]@);
            }
            lemma_filter_range(s, f, first as int, last as int);
            assert(diag_views(r@) =~= s.subrange(first as int, last as int));
        }
        r
    }

    /// Forgets the diagnostics of a closed buffer; those of later buffers
    /// move down one id.
    pub fn remove_buffer(&mut self, buf_id: usize)
        requires
            old(self).wf(),
        ensures
            final(self).wf(),
            buf_id < old(self).entries_view().len() ==> final(self).entries_view() == old(self).entries_view().remove(
                buf_id as int,
            ),
            buf_id >= old(self).entries_view().len() ==> final(self).entries_view() == old(self).entries_view(),
    {
        if buf_id < self.entries.len() {
            self.entries.remove(buf_id);
            proof {
                assert(self.entries_view() =~= old(self).entries_view().remove(buf_id as int));
                assert forall|b: int, j: int, k: int|
                    0 <= b < self.entries_view().len() && 0 <= j < k < self.entries_view()[b].len()
                        implies #[trigger] self.entries_view()[b][j].line <= #[trigger] self.entries_view()[b][k].line by {
                    if b < buf_id {
                        assert(self.entries_view()[b] == old(self).entries_view()[b]);
                    } else {
                        assert(self.entries_view()[b] == old(self).entries_view()[b + 1]);
                    }
                }
            }
        }
    }
}

/// Filtering by a predicate that holds exactly on positions `a..b` keeps
/// that run.
proof fn lemma_filter_range(s: Seq<DiagnosticView>, f: spec_fn(DiagnosticView) -> bool, a: int, b: int)
    requires
        0 <= a <= b <= s.len(),
        forall|k: int| 0 <= k < s.len() ==> f(s[k]) == (a <= k < b),
    ensures
        s.filter(f) == s.subrange(a, b),
    decreases s.len(),
{
    if s.len() == 0 {
        assert(s.filter(f) =~= Seq::<DiagnosticView>::empty());
    } else {
        let t = s.drop_last();
        reveal(Seq::filter);
        if b == s.len() && a < b {
            lemma_filter_range(t, f, a, b - 1);
            assert(s.subrange(a, b) =~= t.subrange(a, b - 1).push(s.last()));
        } else if b == s.len() {
            lemma_filter_range(t, f, t.len() as int, t.len() as int);
            assert(s.subrange(a, b) =~= t.subrange(t.len() as int, t.len() as int));
        } else {
            lemma_filter_range(t, f, a, b);
            assert(t.subrange(a, b) =~= s.subrange(a, b));
        }
        assert(s.drop_last() == t);
    }
}

/// The number of chars of `s` that start before UTF-16 offset `col`.
pub open spec fn chars_before_utf16(s: Seq<char>, col: int) -> nat
    decreases s.len(),
{
    if s.len() == 0 || col <= 0 {
        0
    } else {
        1 + chars_before_utf16(s.drop_first(), col - utf16_len(s[0]))
    }
}

/// The chars of line `l` of `t`, its line break included.
pub open spec fn line_text(t: Seq<char>, l: nat) -> Seq<char> {
    t.subrange(line_start(t, l), line_start(t, l + 1))
}

/// The char column of UTF-16 column `col` on line `line` of `t` (zero for a
/// line past the end).
pub open spec fn char_col_of(t: Seq<char>, line: int, col: int) -> nat {
    if line < 0 || line >= line_count(t) {
        0
    } else {
        chars_before_utf16(line_text(t, line as nat), col)
    }
}

/// Converts the protocol's UTF-16 column `utf16_col` on line `line` to a
/// char column.
pub fn lsp_col_to_char_col(buffer: &Buffer, line: usize, utf16_col: usize) -> (r: usize)
    requires
        buffer.wf(),
        utf16_col < usize::MAX,
    ensures
        r == char_col_of(buffer@, line as int, utf16_col as int),
        r <= buffer@.len(),
{
    let total = buffer.total_lines();
    if line >= total {
        return 0;
    }
    let ghost t = buffer@;
    proof {
        lemma_line_start_bounds(t, line as nat);
        lemma_line_start_bounds(t, (line + 1) as nat);
    }
    let start = buffer.line_to_char(line);
    let len = buffer.line_len_chars(line);
    let ghost lt = line_text(t, line as nat);
    let n = buffer.len_chars();
    let mut utf16_offset: usize = 0;
    let mut char_col: usize = 0;
    assert(lt.skip(0) =~= lt);
    while char_col < len && utf16_offset < utf16_col
        invariant
            t == buffer@,
            buffer.wf(),
            n == t.len(),
            lt == line_text(t, line as nat),
            lt == t.subrange(start as int, start + len),
            lt.len() == len,
            start + len <= t.len(),
            char_col <= len,
            utf16_offset <= 2 * char_col,
            utf16_col < usize::MAX,
            char_col + chars_before_utf16(lt.skip(char_col as int), utf16_col - utf16_offset) == chars_before_utf16(
                lt,
                utf16_col as int,
            ),
        decreases len - char_col,
    {
        let ch = buffer.char_at(start + char_col);
        proof {
            assert(lt[char_col as int] == ch);
            assert(lt.skip(char_col as int).drop_first() =~= lt.skip(char_col as int + 1));
            assert(lt.skip(char_col as int)[0] == ch);
        }
        utf16_offset = utf16_offset + crate::strs::len_utf16(ch);
        char_col = char_col + 1;
    }
    proof {
        if char_col == len {
            assert(lt.skip(char_col as int).len() == 0);
        }
    }
    char_col
}

/// A diagnostic as a language server sent it: a range in lines and UTF-16
/// columns, a severity number, a message and a source.
pub struct LspDiagnostic {
    pub start_line: usize,
    pub start_char: usize,
    pub end_line: usize,
    pub end_char: usize,
    pub severity: Option<u64>,
    pub message: String,
    pub source: Option<String>,
}

/// The severity for the protocol's severity number (error when absent or
/// unknown).
pub open spec fn severity_of(n: Option<u64>) -> Severity {
    match n {
        Some(2) => Severity::Warning,
        Some(3) => Severity::Info,
        Some(4) => Severity::Hint,
        _ => Severity::Error,
    }
}

/// The diagnostic for a server's diagnostic on text `t`: columns in chars;
/// one spanning lines underlines to the end of its first line; at least one
/// char wide.
pub open spec fn diagnostic_from_lsp(d: LspDiagnostic, t: Seq<char>) -> DiagnosticView {
    let cs = char_col_of(t, d.start_line as int, d.start_char as int);
    let ce0: int = if d.end_line == d.start_line {
        char_col_of(t, d.end_line as int, d.end_char as int) as int
    } else if d.start_line < line_count(t) {
        let n = line_start(t, (d.start_line + 1) as nat) - line_start(t, d.start_line as nat);
        if n > 0 { n - 1 } else { 0 }
    } else {
        cs as int + 1
    };
    let ce: int = if ce0 > cs + 1 { ce0 } else { cs as int + 1 };
    DiagnosticView {
        line: d.start_line,
        col_start: cs as usize,
        col_end: ce as usize,
        severity: severity_of(d.severity),
        message: d.message@,
        source: match d.source {
            Some(s) => Some(s@),
            None => None,
        },
    }
}

/// The diagnostic for a server's diagnostic on `buffer`.
pub fn parse_one_diagnostic(d: &LspDiagnostic, buffer: &Buffer) -> (r: Diagnostic)
    requires
        buffer.wf(),
        buffer@.len() < usize::MAX,
        d.start_char < usize::MAX,
        d.end_char < usize::MAX,
    ensures
        r@ == diagnostic_from_lsp(*d, buffer@),
{
    let col_start = lsp_col_to_char_col(buffer, d.start_line, d.start_char);
    let col_end = if d.end_line == d.start_line {
        lsp_col_to_char_col(buffer, d.end_line, d.end_char)
    } else if d.start_line < buffer.total_lines() {
        let n = buffer.line_len_chars(d.start_line);
        if n > 0 { n - 1 } else { 0 }
    } else {
        col_start + 1
    };
    let col_end = if col_end > col_start + 1 { col_end } else { col_start + 1 };
    let severity = match d.severity {
        Some(2) => Severity::Warning,
        Some(3) => Severity::Info,
        Some(4) => Severity::Hint,
        _ => Severity::Error,
    };
    Diagnostic {
        line: d.start_line,
        col_start,
        col_end,
        severity,
        message: str_to_string(d.message.as_str()),
        source: match &d.source {
            Some(s) => Some(str_to_string(s.as_str())),
            None => None,
        },
    }
}

/// Whether `uri` is a `file://` URI.
pub open spec fn is_file_uri(uri: Seq<char>) -> bool {
    uri.len() >= 7 && uri.take(7) == "file://"@
}

/// The first buffer from index `i` on read from file `path`: its path is
/// `path`, as text or as a `Path`.
pub open spec fn buffer_for_file(bufs: Seq<Buffer>, path: Seq<char>, i: int) -> Option<int>
    decreases bufs.len() - i,
{
    if i < 0 || i >= bufs.len() {
        None
    } else if bufs[i].path_chars() matches Some(p) && (p == path || path_eq(p, path)) {
        Some(i)
    } else {
        buffer_for_file(bufs, path, i + 1)
    }
}

/// The buffers' diagnostics from a publish-diagnostics notification for
/// `uri`: the buffer whose file the URI names, and its diagnostics. Nothing
/// when the URI is not a file URI, no buffer has that file, or the
/// notification held no diagnostic list.
pub fn parse_publish_diagnostics(uri: &str, diags: Option<Vec<LspDiagnostic>>, buffers: &[Buffer]) -> (r: Option<(usize, Vec<Diagnostic>)>)
    requires
        forall|k: int| 0 <= k < buffers@.len() ==> (#[trigger] buffers@[k]).wf() && buffers@[k]@.len() < usize::MAX,
        diags matches Some(v) ==> forall|k: int|
            0 <= k < v@.len() ==> (#[trigger] v@[k]).start_char < usize::MAX && v@[k].end_char < usize::MAX,
    ensures
        r is Some <==> is_file_uri(uri@) && diags is Some && buffer_for_file(buffers@, uri@.skip(7), 0) is Some,
        r matches Some((id, ds)) ==> {
            &&& buffer_for_file(buffers@, uri@.skip(7), 0) == Some(id as int)
            &&& diags matches Some(v) && diag_views(ds@) == v@.map_values(
                |d: LspDiagnostic| diagnostic_from_lsp(d, buffers@[id as int]@),
            )
        },
{
    let chars = chars_of(uri);
    let prefix = chars_of("file://");
    proof {
        reveal_strlit("file://");
    }
    if !crate::strs::chars_start_with(&chars, &prefix) {
        return None;
    }
    let path = crate::strs::string_of_chars(&chars, 7, chars.len());
    proof {
        assert(chars@.subrange(7, chars@.len() as int) =~= uri@.skip(7));
    }
    let mut found: Option<usize> = None;
    let mut i: usize = 0;
    while i < buffers.len()
        invariant_except_break
            found is None,
        invariant
            i <= buffers@.len(),
            path@ == uri@.skip(7),
            forall|k: int| 0 <= k < buffers@.len() ==> (#[trigger] buffers@[k]).wf() && buffers@[k]@.len() < usize::MAX,
            buffer_for_file(buffers@, uri@.skip(7), i as int) == buffer_for_file(buffers@, uri@.skip(7), 0),
        ensures
            found matches Some(b) ==> b < buffers@.len() && buffer_for_file(buffers@, uri@.skip(7), 0) == Some(b as int),
            found is None ==> buffer_for_file(buffers@, uri@.skip(7), 0) is None,
        decreases buffers@.len() - i,
    {
        let hit = match buffers[i].file_path() {
            Some(fp) => crate::strs::str_eq(fp, path.as_str()) || path_equal(fp, path.as_str()),
            None => false,
        };
        if hit {
            found = Some(i);
            break;
        }
        i = i + 1;
    }
    let buf_id = match found {
        Some(b) => b,
        None => return None,
    };
    let v = match diags {
        Some(v) => v,
        None => return None,
    };
    let buffer = &buffers[buf_id];
    let mut out: Vec<Diagnostic> = Vec::new();
    let mut k: usize = 0;
    while k < v.len()
        invariant
            k <= v@.len(),
            buffer.wf(),
            buffer@.len() < usize::MAX,
            forall|m: int| 0 <= m < v@.len() ==> (#[trigger] v@[m]).start_char < usize::MAX && v@[m].end_char < usize::MAX,
            diag_views(out@) == v@.take(k as int).map_values(|d: LspDiagnostic| diagnostic_from_lsp(d, buffer@)),
        decreases v@.len() - k,
    {
        let d = parse_one_diagnostic(&v[k], buffer);
        let ghost before = out@;
        out.push(d);
        proof {
            assert(diag_views(out@) =~= diag_views(before).push(d@));
            assert(v@.take(k as int + 1).map_values(|d: LspDiagnostic| diagnostic_from_lsp(d, buffer@)) =~= v@.take(
                k as int,
            ).map_values(|d: LspDiagnostic| diagnostic_from_lsp(d, buffer@)).push(diagnostic_from_lsp(v@[k as int], buffer@)));
        }
        k = k + 1;
    }
    proof {
        assert(v@.take(v@.len() as int) =~= v@);
    }
    Some((buf_id, out))
}

} // verus!
