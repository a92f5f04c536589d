//! What hovering shows: the diagnostics on the cursor's line as text, and
//! hover documentation with its code fences taken out.
use vstd::prelude::*;
use crate::diagnostics::{Diagnostic, DiagnosticView, Severity, diag_views};
use crate::info_panel::join_lines;
use crate::strs::{chars_of, string_of_chars, str_to_string, string_push_str, string_push, trim, trim_bounds, seq_starts_with};

verus! {

/// One diagnostic as a hover lists it.
#[derive(Debug, Clone)]
pub struct DiagnosticEntry {
    pub severity: Severity,
    pub message: String,
    pub source: Option<String>,
}

/// The index of the first line feed in `s` from `i` on, or `s.len()`.
pub open spec fn first_nl(s: Seq<char>, i: int) -> int
    decreases s.len() - i,
{
    if i < 0 || i >= s.len() {
        s.len() as int
    } else if s[i] == '\n' {
        i
    } else {
        first_nl(s, i + 1)
    }
}

/// `l` without a carriage return at its end.
pub open spec fn strip_cr(l: Seq<char>) -> Seq<char> {
    if l.len() > 0 && l.last() == '\r' { l.drop_last() } else { l }
}

/// The lines of `s` from index `p` on, as `str::lines` gives them: split
/// at line feeds, a carriage return before one dropped, no empty line
/// after a final line feed.
pub open spec fn lines_from(s: Seq<char>, p: int) -> Seq<Seq<char>>
    decreases s.len() - p,
{
    if p < 0 || p >= s.len() {
        Seq::empty()
    } else {
        let i = first_nl(s, p);
        proof {
            lemma_first_nl_bounds(s, p);
        }
        if i >= s.len() {
            seq![s.subrange(p, s.len() as int)]
        } else {
            seq![strip_cr(s.subrange(p, i))] + lines_from(s, i + 1)
        }
    }
}

/// The lines of `s` (`str::lines`).
pub open spec fn text_lines(s: Seq<char>) -> Seq<Seq<char>> {
    lines_from(s, 0)
}

/// The first line feed at or after `i` lies within `s`, and is one.
pub proof fn lemma_first_nl_bounds(s: Seq<char>, i: int)
    requires
        0 <= i <= s.len(),
    ensures
        i <= first_nl(s, i) <= s.len(),
        first_nl(s, i) < s.len() ==> s[first_nl(s, i)] == '\n',
    decreases s.len() - i,
{
    if i < s.len() && s[i] != '\n' {
        lemma_first_nl_bounds(s, i + 1);
    }
}

/// Strings by their chars.
pub open spec fn string_views(v: Seq<String>) -> Seq<Seq<char>> {
    v.map_values(|l: String| l@)
}

/// The lines of `s`, as `str::lines` gives them.
pub fn split_lines(s: &str) -> (r: Vec<String>)
    ensures
        string_views(r@) == text_lines(s@),
{
    let v = chars_of(s);
    let n = v.len();
    let mut out: Vec<String> = Vec::new();
    let mut p: usize = 0;
    while p < n
        invariant
            n == v@.len(),
            v@ == s@,
            p <= n,
            text_lines(s@) == string_views(out@) + lines_from(v@, p as int),
        decreases n - p,
    {
        let mut i: usize = p;
        while i < n && v[i] != '\n'
            invariant
                p <= i <= n,
                n == v@.len(),
                first_nl(v@, i as int) == first_nl(v@, p as int),
            decreases n - i,
        {
            i = i + 1;
        }
        let ghost before = string_views(out@);
        if i == n {
            out.push(string_of_chars(&v, p, n));
            proof {
                assert(string_views(out@) =~= before.push(v@.subrange(p as int, n as int)));
                assert(lines_from(v@, n as int) =~= Seq::<Seq<char>>::empty());
                assert(lines_from(v@, p as int) =~= seq![v@.subrange(p as int, n as int)]);
                assert(before + lines_from(v@, p as int) =~= string_views(out@) + lines_from(v@, n as int));
            }
            p = n;
        } else {
            let e = if i > p && v[i - 1] == '\r' { i - 1 } else { i };
            out.push(string_of_chars(&v, p, e));
            proof {
                let l = v@.subrange(p as int, i as int);
                assert(strip_cr(l) =~= v@.subrange(p as int, e as int));
                assert(string_views(out@) =~= before.push(strip_cr(l)));
                assert(lines_from(v@, p as int) == seq![strip_cr(l)] + lines_from(v@, i + 1));
                assert(before + lines_from(v@, p as int) =~= string_views(out@) + lines_from(v@, i + 1));
            }
            p = i + 1;
        }
    }
    proof {
        assert(lines_from(v@, p as int) =~= Seq::<Seq<char>>::empty());
        assert(string_views(out@) + Seq::<Seq<char>>::empty() =~= string_views(out@));
    }
    out
}

/// The one-letter mark of a severity.
pub open spec fn severity_icon(s: Severity) -> char {
    match s {
        Severity::Error => 'E',
        Severity::Warning => 'W',
        Severity::Info => 'I',
        Severity::Hint => 'H',
    }
}

/// `"    "` + `l`.
pub open spec fn indented(l: Seq<char>) -> Seq<char> {
    "    "@ + l
}

/// The hover lines of a diagnostic's message lines from index `k` on:
/// the first marked with the severity, the others indented.
pub open spec fn message_lines(icon: char, msg: Seq<Seq<char>>, k: int) -> Seq<Seq<char>>
    decreases msg.len() - k,
{
    if k < 0 || k >= msg.len() {
        Seq::empty()
    } else {
        seq![if k == 0 { seq!['[', icon, ']', ' '] + msg[k] } else { indented(msg[k]) }] + message_lines(
            icon,
            msg,
            k + 1,
        )
    }
}

/// The hover lines of one diagnostic: its message lines, then its source
/// in brackets, indented.
pub open spec fn entry_lines(d: DiagnosticView) -> Seq<Seq<char>> {
    message_lines(severity_icon(d.severity), text_lines(d.message), 0) + match d.source {
        Some(s) => seq![indented(seq!['['] + s + seq![']'])],
        None => Seq::empty(),
    }
}

/// The hover lines of the diagnostics of `ds` on line `line`, in order.
pub open spec fn hover_lines(ds: Seq<DiagnosticView>, line: usize) -> Seq<Seq<char>>
    decreases ds.len(),
{
    if ds.len() == 0 {
        Seq::empty()
    } else {
        hover_lines(ds.drop_last(), line) + if ds.last().line == line {
            entry_lines(ds.last())
        } else {
            Seq::empty()
        }
    }
}

/// Whether some diagnostic of `ds` is on line `line`.
pub open spec fn any_on_line(ds: Seq<DiagnosticView>, line: usize) -> bool {
    exists|i: int| 0 <= i < ds.len() && (#[trigger] ds[i]).line == line
}

/// Pushes `text` as a string onto `lines`.
fn push_line(lines: &mut Vec<String>, text: String)
    ensures
        string_views(final(lines)@) == string_views(old(lines)@).push(text@),
{
    let ghost before = string_views(lines@);
    lines.push(text);
    assert(string_views(lines@) =~= before.push(text@));
}

/// Joins `lines` with line feeds.
fn join_with_newlines(lines: &Vec<String>) -> (r: String)
    ensures
        r@ == join_lines(string_views(lines@)),
{
    let ghost all = string_views(lines@);
    let mut out = String::new();
    let mut k: usize = 0;
    while k < lines.len()
        invariant
            all == string_views(lines@),
            k <= lines@.len(),
            out@ == join_lines(all.take(k as int)),
        decreases lines@.len() - k,
    {
        if k > 0 {
            string_push(&mut out, '\n');
        }
        string_push_str(&mut out, lines[k].as_str());
        proof {
            assert(all.take(k as int + 1).drop_last() =~= all.take(k as int));
            assert(all[k as int] == lines@[k as int]@);
            if k == 0 {
                assert(out@ =~= join_lines(all.take(1)));
            } else {
                assert(out@ =~= join_lines(all.take(k as int + 1)));
            }
        }
        k = k + 1;
    }
    proof {
        assert(all.take(lines@.len() as int) =~= all);
    }
    out
}

/// The text a hover shows for the diagnostics on line `line`: for each, its
/// message's first line marked `[E]`, `[W]`, `[I]` or `[H]`, the other
/// lines and the source (in brackets) indented, all joined by line feeds;
/// none when no diagnostic is on that line.
pub fn diagnostic_hover_text(diagnostics: &[Diagnostic], line: usize) -> (r: Option<String>)
    ensures
        !any_on_line(diag_views(diagnostics@), line) ==> r is None,
        any_on_line(diag_views(diagnostics@), line) ==> (r matches Some(t) && t@ == join_lines(
            hover_lines(diag_views(diagnostics@), line),
        )),
{
    let ghost ds = diag_views(diagnostics@);
    let mut lines: Vec<String> = Vec::new();
    let mut found = false;
    let mut i: usize = 0;
    while i < diagnostics.len()
        invariant
            ds == diag_views(diagnostics@),
            i <= diagnostics@.len(),
            string_views(lines@) == hover_lines(ds.take(i as int), line),
            found == any_on_line(ds.take(i as int), line),
        decreases diagnostics@.len() - i,
    {
        let d = &diagnostics[i];
        let ghost before = string_views(lines@);
        proof {
            assert(ds[i as int] == d@);
            assert(ds.take(i as int + 1).drop_last() =~= ds.take(i as int));
            assert(ds.take(i as int + 1).last() == d@);
        }
        if d.line == line {
            found = true;
            let icon = match d.severity {
                Severity::Error => 'E',
                Severity::Warning => 'W',
                Severity::Info => 'I',
                Severity::Hint => 'H',
            };
            let msg = split_lines(d.message.as_str());
            let ghost ml = string_views(msg@);
            let mut k: usize = 0;
            while k < msg.len()
                invariant
                    ml == string_views(msg@),
                    ml == text_lines(d.message@),
                    k <= msg@.len(),
                    string_views(lines@) + message_lines(icon, ml, k as int) == before + message_lines(icon, ml, 0),
                decreases msg@.len() - k,
            {
                let mut l = String::new();
                if k == 0 {
                    string_push(&mut l, '[');
                    string_push(&mut l, icon);
                    string_push_str(&mut l, "] ");
                } else {
                    string_push_str(&mut l, "    ");
                }
                string_push_str(&mut l, msg[k].as_str());
                let ghost prev = string_views(lines@);
                proof {
                    reveal_strlit("] ");
                    assert(ml[k as int] == msg@[k as int]@);
                    if k == 0 {
                        assert(l@ =~= seq!['[', icon, ']', ' '] + ml[k as int]);
                    } else {
                        assert(l@ =~= indented(ml[k as int]));
                    }
                }
                push_line(&mut lines, l);
                proof {
                    assert(message_lines(icon, ml, k as int) == seq![l@] + message_lines(icon, ml, k + 1));
                    assert(string_views(lines@) + message_lines(icon, ml, k + 1) =~= prev + message_lines(
                        icon,
                        ml,
                        k as int,
                    ));
                }
                k = k + 1;
            }
            proof {
                assert(message_lines(icon, ml, k as int) =~= Seq::<Seq<char>>::empty());
                assert(string_views(lines@) =~= before + message_lines(icon, ml, 0));
            }
            match &d.source {
                Some(src) => {
                    let mut l = str_to_string("    [");
                    string_push_str(&mut l, src.as_str());
                    string_push(&mut l, ']');
                    proof {
                        reveal_strlit("    [");
                        reveal_strlit("    ");
                        assert(l@ =~= indented(seq!['['] + src@ + seq![']']));
                    }
                    push_line(&mut lines, l);
                },
                None => {},
            }
            proof {
                assert(string_views(lines@) =~= before + entry_lines(d@));
            }
        }
        proof {
            if d.line != line {
                assert(hover_lines(ds.take(i as int + 1), line) =~= hover_lines(ds.take(i as int), line));
            }
            if found && !any_on_line(ds.take(i as int), line) {
                assert(ds.take(i as int + 1)[i as int].line == line);
            }
            if any_on_line(ds.take(i as int + 1), line) && d.line != line {
                let j = choose|j: int| 0 <= j < i + 1 && (#[trigger] ds.take(i as int + 1)[j]).line == line;
                assert(ds.take(i as int)[j].line == line);
            }
            if any_on_line(ds.take(i as int), line) {
                let j = choose|j: int| 0 <= j < i && (#[trigger] ds.take(i as int)[j]).line == line;
                assert(ds.take(i as int + 1)[j].line == line);
            }
        }
        i = i + 1;
    }
    proof {
        assert(ds.take(diagnostics@.len() as int) =~= ds);
    }
    if !found {
        return None;
    }
    Some(join_with_newlines(&lines))
}

/// The lines of `text` but those that open or close a code fence (that
/// start with three backquotes once trimmed).
pub open spec fn unfenced(lines: Seq<Seq<char>>) -> Seq<Seq<char>>
    decreases lines.len(),
{
    if lines.len() == 0 {
        Seq::empty()
    } else {
        unfenced(lines.drop_last()) + if seq_starts_with(trim(lines.last()), "```"@) {
            Seq::empty()
        } else {
            seq![lines.last()]
        }
    }
}

/// The lines of `text` with the lines of code-fence markers taken out, so
/// that only the code shows.
pub fn strip_markdown_fences(text: &str) -> (r: Vec<String>)
    ensures
        string_views(r@) == unfenced(text_lines(text@)),
{
    let all = split_lines(text);
    let ghost ls = string_views(all@);
    let mut out: Vec<String> = Vec::new();
    let mut i: usize = 0;
    while i < all.len()
        invariant
            ls == string_views(all@),
            i <= all@.len(),
            string_views(out@) == unfenced(ls.take(i as int)),
        decreases all@.len() - i,
    {
        let v = chars_of(all[i].as_str());
        let (a, b) = trim_bounds(&v, 0, v.len());
        let fence = b - a >= 3 && v[a] == '`' && v[a + 1] == '`' && v[a + 2] == '`';
        proof {
            reveal_strlit("```");
            assert(ls[i as int] == all@[i as int]@);
            assert(v@.subrange(0, v@.len() as int) =~= v@);
            let tr = trim(ls[i as int]);
            assert(tr == v@.subrange(a as int, b as int));
            if fence {
                assert(tr.take(3) =~= "```"@);
            } else if tr.len() >= 3 {
                assert(tr.take(3) != "```"@) by {
                    if tr.take(3) == "```"@ {
                        assert(tr.take(3)[0] == v@[a as int]);
                        assert(tr.take(3)[1] == v@[a + 1]);
                        assert(tr.take(3)[2] == v@[a + 2]);
                    }
                }
            }
            assert(ls.take(i as int + 1).drop_last() =~= ls.take(i as int));
        }
        if !fence {
            push_line(&mut out, str_to_string(all[i].as_str()));
        }
        i = i + 1;
    }
    proof {
        assert(ls.take(all@.len() as int) =~= ls);
    }
    out
}


/// An entry of a hover reply's `contents` array.
pub enum HoverItem {
    /// A plain string.
    Text(String),
    /// An object with a string `value`.
    Value(String),
    /// Anything else, which shows nothing.
    Other,
}

/// A hover reply, by the shape of its `contents`.
pub enum HoverReply {
    /// `contents` is missing or of none of the shapes below: the whole
    /// reply, as pretty-printed JSON.
    Raw(String),
    /// `contents` is a string.
    Text(String),
    /// `contents` has a string `value` (markup, or a language string).
    Value(String),
    /// `contents` is an array.
    Items(Vec<HoverItem>),
}

/// The lines an entry of a hover reply shows.
pub open spec fn item_lines(it: HoverItem) -> Seq<Seq<char>> {
    match it {
        HoverItem::Text(s) => text_lines(s@),
        HoverItem::Value(v) => unfenced(text_lines(v@)),
        HoverItem::Other => Seq::empty(),
    }
}

/// The lines of the entries, in order.
pub open spec fn items_lines(items: Seq<HoverItem>) -> Seq<Seq<char>>
    decreases items.len(),
{
    if items.len() == 0 {
        Seq::empty()
    } else {
        items_lines(items.drop_last()) + item_lines(items.last())
    }
}

/// The lines a hover reply shows: text as it is, markup without its code
/// fences.
pub open spec fn hover_reply_lines(r: HoverReply) -> Seq<Seq<char>> {
    match r {
        HoverReply::Raw(s) => text_lines(s@),
        HoverReply::Text(s) => text_lines(s@),
        HoverReply::Value(v) => unfenced(text_lines(v@)),
        HoverReply::Items(v) => items_lines(v@),
    }
}

/// Appends `more` to `out`.
fn push_all(out: &mut Vec<String>, more: Vec<String>)
    ensures
        string_views(final(out)@) == string_views(old(out)@) + string_views(more@),
{
    let ghost start = string_views(out@);
    let mut i: usize = 0;
    while i < more.len()
        invariant
            i <= more@.len(),
            string_views(out@) == start + string_views(more@.take(i as int)),
        decreases more@.len() - i,
    {
        let ghost before = out@;
        out.push(crate::strs::str_to_string(more[i].as_str()));
        proof {
            assert(string_views(out@) =~= string_views(before).push(more@[i as int]@));
            assert(string_views(more@.take(i + 1)) =~= string_views(more@.take(i as int)).push(more@[i as int]@));
        }
        i = i + 1;
    }
    assert(more@.take(more@.len() as int) =~= more@);
}

/// The lines a hover popup shows for a reply.
pub fn extract_hover_text(reply: &HoverReply) -> (r: Vec<String>)
    ensures
        string_views(r@) == hover_reply_lines(*reply),
{
    match reply {
        HoverReply::Raw(s) => split_lines(s.as_str()),
        HoverReply::Text(s) => split_lines(s.as_str()),
        HoverReply::Value(v) => strip_markdown_fences(v.as_str()),
        HoverReply::Items(items) => {
            let mut out: Vec<String> = Vec::new();
            let mut i: usize = 0;
            while i < items.len()
                invariant
                    i <= items@.len(),
                    string_views(out@) == items_lines(items@.take(i as int)),
                decreases items@.len() - i,
            {
                proof {
                    assert(items@.take(i + 1).drop_last() =~= items@.take(i as int));
                }
                match &items[i] {
                    HoverItem::Text(s) => push_all(&mut out, split_lines(s.as_str())),
                    HoverItem::Value(v) => push_all(&mut out, strip_markdown_fences(v.as_str())),
                    HoverItem::Other => {
                        assert(string_views(out@) + Seq::<Seq<char>>::empty() =~= string_views(out@));
                    },
                }
                i = i + 1;
            }
            assert(items@.take(items@.len() as int) =~= items@);
            out
        },
    }
}

} // verus!
