//! The mathematical model of text: a sequence of chars, split into lines
//! after every line feed.
use vstd::prelude::*;

verus! {

/// Number of line feeds in `s`.
pub open spec fn nl_count(s: Seq<char>) -> nat
    decreases s.len(),
{
    if s.len() == 0 {
        0
    } else {
        (if s[0] == '\n' { 1nat } else { 0nat }) + nl_count(s.drop_first())
    }
}

/// Number of lines of `s`: one more than its line feeds.
pub open spec fn line_count(s: Seq<char>) -> nat {
    nl_count(s) + 1
}

/// The line that char index `p` lies on: the line feeds before it.
pub open spec fn line_of(s: Seq<char>, p: int) -> nat {
    nl_count(s.take(p))
}

/// The char index at which line `l` starts; `line_start(s, line_count(s))`
/// is one past the end.
pub open spec fn line_start(s: Seq<char>, l: nat) -> int
    decreases s.len(),
{
    if l == 0 {
        0
    } else if s.len() == 0 {
        0
    } else if s[0] == '\n' {
        1 + line_start(s.drop_first(), (l - 1) as nat)
    } else {
        1 + line_start(s.drop_first(), l)
    }
}

/// Line feeds of a concatenation add up.
pub proof fn lemma_nl_count_concat(a: Seq<char>, b: Seq<char>)
    ensures
        nl_count(a + b) == nl_count(a) + nl_count(b),
    decreases a.len(),
{
    if a.len() == 0 {
        assert(a + b =~= b);
    } else {
        assert((a + b).drop_first() =~= a.drop_first() + b);
        lemma_nl_count_concat(a.drop_first(), b);
    }
}

/// A prefix has no more line feeds than the whole.
pub proof fn lemma_nl_count_take_le(s: Seq<char>, p: int)
    requires
        0 <= p <= s.len(),
    ensures
        nl_count(s.take(p)) <= nl_count(s),
{
    assert(s =~= s.take(p) + s.skip(p));
    lemma_nl_count_concat(s.take(p), s.skip(p));
}

/// There are no more line feeds than chars.
pub proof fn lemma_nl_count_le_len(s: Seq<char>)
    ensures
        nl_count(s) <= s.len(),
    decreases s.len(),
{
    if s.len() > 0 {
        lemma_nl_count_le_len(s.drop_first());
    }
}

/// Line starts lie within the text, are ordered, the first is 0 and the one
/// past the last line is the end of the text.
pub proof fn lemma_line_start_bounds(s: Seq<char>, l: nat)
    requires
        l <= nl_count(s) + 1,
    ensures
        0 <= line_start(s, l) <= s.len(),
        l <= nl_count(s) ==> line_start(s, l) <= line_start(s, l + 1),
        l < nl_count(s) ==> line_start(s, l) < line_start(s, l + 1),
        l == nl_count(s) + 1 ==> line_start(s, l) == s.len(),
        line_start(s, 0) == 0,
    decreases s.len(),
{
    if l == 0 {
        if s.len() > 0 {
            lemma_line_start_bounds(s.drop_first(), 0);
            if s[0] != '\n' {
                lemma_line_start_bounds(s.drop_first(), 1);
            }
        }
    } else if s.len() == 0 {
    } else if s[0] == '\n' {
        lemma_line_start_bounds(s.drop_first(), (l - 1) as nat);
    } else {
        lemma_line_start_bounds(s.drop_first(), l);
    }
}

/// Line starts are monotone.
pub proof fn lemma_line_start_mono(s: Seq<char>, a: nat, b: nat)
    requires
        a <= b <= nl_count(s) + 1,
    ensures
        line_start(s, a) <= line_start(s, b),
    decreases b - a,
{
    if a < b {
        lemma_line_start_bounds(s, a);
        lemma_line_start_mono(s, (a + 1) as nat, b);
    }
}

/// The line of a char index: it is a line of the text, and the index lies
/// between the start of that line and the start of the next.
pub proof fn lemma_line_of_bounds(s: Seq<char>, p: int)
    requires
        0 <= p <= s.len(),
    ensures
        line_of(s, p) <= nl_count(s),
        line_start(s, line_of(s, p)) <= p <= line_start(s, line_of(s, p) + 1),
        p < s.len() ==> p < line_start(s, line_of(s, p) + 1),
    decreases s.len(),
{
    lemma_nl_count_take_le(s, p);
    if p == 0 {
        assert(s.take(0) =~= Seq::<char>::empty());
        lemma_line_start_bounds(s, 0);
        if s.len() > 0 {
            lemma_line_start_bounds(s.drop_first(), 0);
            lemma_line_start_bounds(s.drop_first(), 1);
        }
    } else {
        let r = s.drop_first();
        assert(s.take(p).drop_first() =~= r.take(p - 1));
        lemma_line_of_bounds(r, p - 1);
    }
}

/// The line of a line's start is that line.
pub proof fn lemma_line_of_line_start(s: Seq<char>, l: nat)
    requires
        l <= nl_count(s),
    ensures
        line_of(s, line_start(s, l)) == l,
    decreases s.len(),
{
    lemma_line_start_bounds(s, l);
    if l == 0 {
        assert(s.take(0) =~= Seq::<char>::empty());
    } else if s.len() == 0 {
    } else {
        let r = s.drop_first();
        let p = line_start(s, l);
        if s[0] == '\n' {
            lemma_line_start_bounds(r, (l - 1) as nat);
            lemma_line_of_line_start(r, (l - 1) as nat);
        } else {
            lemma_line_start_bounds(r, l);
            lemma_line_of_line_start(r, l);
        }
        assert(s.take(p).drop_first() =~= r.take(p - 1));
    }
}

/// Every char before the last of a line is not a line feed, and a line
/// other than the last ends in a line feed.
pub proof fn lemma_line_chars(s: Seq<char>, l: nat)
    requires
        l <= nl_count(s),
    ensures
        forall|i: int| line_start(s, l) <= i < line_start(s, l + 1) - 1 ==> s[i] != '\n',
        l < nl_count(s) ==> s[line_start(s, l + 1) - 1] == '\n',
        l == nl_count(s) && line_start(s, l) < s.len() ==> s[s.len() - 1] != '\n',
    decreases s.len(),
{
    lemma_line_start_bounds(s, l);
    lemma_line_start_bounds(s, l + 1);
    if s.len() == 0 {
    } else {
        let r = s.drop_first();
        if l == 0 {
            if s[0] == '\n' {
            } else {
                lemma_line_chars(r, 0);
                lemma_line_start_bounds(r, 1);
                lemma_line_start_bounds(r, 0);
                if 0 < nl_count(s) {
                    assert(s[line_start(s, 1) - 1] == r[line_start(r, 1) - 1]);
                }
                assert forall|i: int| line_start(s, l) <= i < line_start(s, l + 1) - 1 implies s[i] != '\n' by {
                    if i > 0 {
                        assert(s[i] == r[i - 1]);
                    }
                }
                if l == nl_count(s) && s.len() > 1 {
                    assert(s[s.len() - 1] == r[r.len() - 1]);
                }
            }
        } else if s[0] == '\n' {
            lemma_line_start_bounds(r, (l - 1) as nat);
            lemma_line_chars(r, (l - 1) as nat);
            lemma_line_start_bounds(r, l);
            if l < nl_count(s) {
                assert(s[line_start(s, l + 1) - 1] == r[line_start(r, l) - 1]);
            }
            assert forall|i: int| line_start(s, l) <= i < line_start(s, l + 1) - 1 implies s[i] != '\n' by {
                assert(s[i] == r[i - 1]);
            }
            if l == nl_count(s) && line_start(s, l) < s.len() {
                assert(s[s.len() - 1] == r[r.len() - 1]);
            }
        } else {
            lemma_line_start_bounds(r, l);
            lemma_line_chars(r, l);
            lemma_line_start_bounds(r, l + 1);
            if l < nl_count(s) {
                assert(s[line_start(s, l + 1) - 1] == r[line_start(r, l + 1) - 1]);
            }
            assert forall|i: int| line_start(s, l) <= i < line_start(s, l + 1) - 1 implies s[i] != '\n' by {
                assert(s[i] == r[i - 1]);
            }
            if l == nl_count(s) && line_start(s, l) < s.len() {
                assert(s[s.len() - 1] == r[r.len() - 1]);
            }
        }
    }
}

} // verus!

verus! {

/// Length of line `l` without its trailing line feed or carriage return.
pub open spec fn line_len_nn(s: Seq<char>, l: nat) -> int {
    let a = line_start(s, l);
    let b = line_start(s, l + 1);
    if b > a && (s[b - 1] == '\n' || s[b - 1] == '\r') {
        b - a - 1
    } else {
        b - a
    }
}

/// The column of char index `p` within its line.
pub open spec fn col_of(s: Seq<char>, p: int) -> int {
    p - line_start(s, line_of(s, p))
}

/// From `i`, the first index `k` with `k == end` or `!pred(s[k])`.
pub open spec fn skip_fwd(s: Seq<char>, i: int, end: int, pred: spec_fn(char) -> bool) -> int
    decreases end - i,
{
    if i < end && pred(s[i]) {
        skip_fwd(s, i + 1, end, pred)
    } else {
        i
    }
}

/// From `i` downwards, the first index `k` with `k == 0` or `!pred(s[k - 1])`.
pub open spec fn skip_bwd(s: Seq<char>, i: int, pred: spec_fn(char) -> bool) -> int
    decreases i,
{
    if i > 0 && pred(s[i - 1]) {
        skip_bwd(s, i - 1, pred)
    } else {
        i
    }
}

/// From `i`, move on while the next char satisfies `pred`.
pub open spec fn skip_fwd_ahead(s: Seq<char>, i: int, end: int, pred: spec_fn(char) -> bool) -> int
    decreases end - i,
{
    if i + 1 < end && pred(s[i + 1]) {
        skip_fwd_ahead(s, i + 1, end, pred)
    } else {
        i
    }
}

/// `skip_fwd` stays within `[i, end]` when `i <= end`.
pub proof fn lemma_skip_fwd_bounds(s: Seq<char>, i: int, end: int, pred: spec_fn(char) -> bool)
    requires
        i <= end,
    ensures
        i <= skip_fwd(s, i, end, pred) <= end,
    decreases end - i,
{
    if i < end && pred(s[i]) {
        lemma_skip_fwd_bounds(s, i + 1, end, pred);
    }
}

/// `skip_bwd` stays within `[0, i]` when `i >= 0`.
pub proof fn lemma_skip_bwd_bounds(s: Seq<char>, i: int, pred: spec_fn(char) -> bool)
    requires
        i >= 0,
    ensures
        0 <= skip_bwd(s, i, pred) <= i,
    decreases i,
{
    if i > 0 && pred(s[i - 1]) {
        lemma_skip_bwd_bounds(s, i - 1, pred);
    }
}

/// `skip_fwd_ahead` stays within `[i, end)` when `i < end`, and at `i` otherwise.
pub proof fn lemma_skip_fwd_ahead_bounds(s: Seq<char>, i: int, end: int, pred: spec_fn(char) -> bool)
    ensures
        i <= skip_fwd_ahead(s, i, end, pred),
        i < end ==> skip_fwd_ahead(s, i, end, pred) < end,
    decreases end - i,
{
    if i + 1 < end && pred(s[i + 1]) {
        lemma_skip_fwd_ahead_bounds(s, i + 1, end, pred);
    }
}

/// A line's length without its break stays within the line.
pub proof fn lemma_line_len_nn_bounds(s: Seq<char>, l: nat)
    requires
        l <= nl_count(s),
    ensures
        0 <= line_len_nn(s, l),
        line_start(s, l) + line_len_nn(s, l) <= line_start(s, l + 1),
        line_start(s, l + 1) <= s.len(),
{
    lemma_line_start_bounds(s, l);
    lemma_line_start_bounds(s, l + 1);
}

} // verus!
