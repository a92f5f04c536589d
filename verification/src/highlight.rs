//! Syntax highlight groups: which group a tree-sitter capture name falls
//! in. A highlight is its group's index, as the highlighter numbers them.
use vstd::prelude::*;
use crate::strs::{chars_of, string_of_chars, str_eq};

verus! {

/// The kinds of syntax that get a colour of their own.
#[derive(Debug, Clone, Copy, PartialEq, Eq, Structural)]
pub enum HighlightGroup {
    Keyword,
    Function,
    Type,
    String,
    Comment,
    Number,
    Operator,
    Variable,
    Property,
    Punctuation,
    Attribute,
    Namespace,
    Constant,
    Escape,
}

/// The highlight index of a capture name that the table lists itself.
pub open spec fn base_highlight(name: Seq<char>) -> Option<u32> {
    if name == "keyword"@ {
        Some(0)
    } else if name == "function"@ {
        Some(1)
    } else if name == "type"@ {
        Some(2)
    } else if name == "string"@ {
        Some(3)
    } else if name == "comment"@ {
        Some(4)
    } else if name == "number"@ || name == "constant.numeric"@ || name == "float"@ {
        Some(5)
    } else if name == "operator"@ {
        Some(6)
    } else if name == "variable"@ {
        Some(7)
    } else if name == "property"@ || name == "field"@ {
        Some(8)
    } else if name == "punctuation"@ {
        Some(9)
    } else if name == "attribute"@ {
        Some(10)
    } else if name == "namespace"@ || name == "module"@ {
        Some(11)
    } else if name == "constant"@ || name == "boolean"@ {
        Some(12)
    } else if name == "escape"@ || name == "character"@ {
        Some(13)
    } else if name == "label"@ {
        Some(7)
    } else if name == "constructor"@ {
        Some(2)
    } else if name == "tag"@ {
        Some(1)
    } else {
        None
    }
}

/// The index of the last '.' among the first `k` chars of `s`, or -1.
pub open spec fn last_dot(s: Seq<char>, k: int) -> int
    decreases k,
{
    if k <= 0 {
        -1
    } else if s[k - 1] == '.' {
        k - 1
    } else {
        last_dot(s, k - 1)
    }
}

proof fn lemma_last_dot_bounds(s: Seq<char>, k: int)
    requires
        0 <= k <= s.len(),
    ensures
        -1 <= last_dot(s, k) < k,
        last_dot(s, k) >= 0 ==> s[last_dot(s, k)] == '.',
    decreases k,
{
    if k > 0 && s[k - 1] != '.' {
        lemma_last_dot_bounds(s, k - 1);
    }
}

/// The highlight of a capture name: its own entry in the table, else that
/// of the name with its last dotted part dropped, and so on.
pub open spec fn capture_highlight(name: Seq<char>) -> Option<u32>
    decreases name.len(),
{
    match base_highlight(name) {
        Some(h) => Some(h),
        None => {
            let d = last_dot(name, name.len() as int);
            if 0 <= d < name.len() {
                capture_highlight(name.take(d))
            } else {
                None
            }
        },
    }
}

/// The table's entry for `name`.
fn highlight_of_base(name: &str) -> (r: Option<u32>)
    ensures
        r == base_highlight(name@),
{
    if str_eq(name, "keyword") {
        Some(0)
    } else if str_eq(name, "function") {
        Some(1)
    } else if str_eq(name, "type") {
        Some(2)
    } else if str_eq(name, "string") {
        Some(3)
    } else if str_eq(name, "comment") {
        Some(4)
    } else if str_eq(name, "number") || str_eq(name, "constant.numeric") || str_eq(name, "float") {
        Some(5)
    } else if str_eq(name, "operator") {
        Some(6)
    } else if str_eq(name, "variable") {
        Some(7)
    } else if str_eq(name, "property") || str_eq(name, "field") {
        Some(8)
    } else if str_eq(name, "punctuation") {
        Some(9)
    } else if str_eq(name, "attribute") {
        Some(10)
    } else if str_eq(name, "namespace") || str_eq(name, "module") {
        Some(11)
    } else if str_eq(name, "constant") || str_eq(name, "boolean") {
        Some(12)
    } else if str_eq(name, "escape") || str_eq(name, "character") {
        Some(13)
    } else if str_eq(name, "label") {
        Some(7)
    } else if str_eq(name, "constructor") {
        Some(2)
    } else if str_eq(name, "tag") {
        Some(1)
    } else {
        None
    }
}

/// The highlight index of a tree-sitter capture name such as
/// `function.method`: the most specific dotted prefix the table knows.
pub fn capture_name_to_highlight(name: &str) -> (r: Option<u32>)
    ensures
        r == capture_highlight(name@),
{
    let v = chars_of(name);
    let mut end: usize = v.len();
    assert(v@.take(end as int) =~= name@);
    loop
        invariant
            end <= v@.len(),
            capture_highlight(v@.take(end as int)) == capture_highlight(name@),
        decreases end,
    {
        let cur = string_of_chars(&v, 0, end);
        proof {
            assert(v@.subrange(0, end as int) =~= v@.take(end as int));
        }
        match highlight_of_base(cur.as_str()) {
            Some(h) => {
                return Some(h);
            },
            None => {},
        }
        let ghost s = v@.take(end as int);
        let mut k: usize = end;
        while k > 0 && v[k - 1] != '.'
            invariant
                k <= end,
                end <= v@.len(),
                s == v@.take(end as int),
                last_dot(s, k as int) == last_dot(s, end as int),
            decreases k,
        {
            k = k - 1;
        }
        proof {
            lemma_last_dot_bounds(s, end as int);
        }
        if k == 0 {
            return None;
        }
        proof {
            assert(last_dot(s, end as int) == k - 1);
            assert(s.take(k - 1) =~= v@.take(k - 1));
        }
        end = k - 1;
    }
}

/// The highlight group of highlight index `h`; unknown indices count as
/// variables.
pub open spec fn group_of(h: u32) -> HighlightGroup {
    if h == 0 {
        HighlightGroup::Keyword
    } else if h == 1 {
        HighlightGroup::Function
    } else if h == 2 {
        HighlightGroup::Type
    } else if h == 3 {
        HighlightGroup::String
    } else if h == 4 {
        HighlightGroup::Comment
    } else if h == 5 {
        HighlightGroup::Number
    } else if h == 6 {
        HighlightGroup::Operator
    } else if h == 7 {
        HighlightGroup::Variable
    } else if h == 8 {
        HighlightGroup::Property
    } else if h == 9 {
        HighlightGroup::Punctuation
    } else if h == 10 {
        HighlightGroup::Attribute
    } else if h == 11 {
        HighlightGroup::Namespace
    } else if h == 12 {
        HighlightGroup::Constant
    } else if h == 13 {
        HighlightGroup::Escape
    } else {
        HighlightGroup::Variable
    }
}

/// The highlight group of highlight index `h`.
pub fn highlight_to_group(h: u32) -> (g: HighlightGroup)
    ensures
        g == group_of(h),
{
    match h {
        0 => HighlightGroup::Keyword,
        1 => HighlightGroup::Function,
        2 => HighlightGroup::Type,
        3 => HighlightGroup::String,
        4 => HighlightGroup::Comment,
        5 => HighlightGroup::Number,
        6 => HighlightGroup::Operator,
        7 => HighlightGroup::Variable,
        8 => HighlightGroup::Property,
        9 => HighlightGroup::Punctuation,
        10 => HighlightGroup::Attribute,
        11 => HighlightGroup::Namespace,
        12 => HighlightGroup::Constant,
        13 => HighlightGroup::Escape,
        _ => HighlightGroup::Variable,
    }
}

/// A capture name the table does not know gets the highlight of its prefix
/// before the last dot.
pub proof fn law_capture_falls_back_to_parent(name: Seq<char>, d: int)
    requires
        base_highlight(name) is None,
        0 <= d < name.len(),
        name[d] == '.',
        forall|j: int| d < j < name.len() ==> name[j] != '.',
    ensures
        capture_highlight(name) == capture_highlight(name.take(d)),
{
    lemma_last_dot_at(name, name.len() as int, d);
}

/// The last dot before `k` is at `d` when no dot follows it before `k`.
proof fn lemma_last_dot_at(s: Seq<char>, k: int, d: int)
    requires
        0 <= d < k <= s.len(),
        s[d] == '.',
        forall|j: int| d < j < k ==> s[j] != '.',
    ensures
        last_dot(s, k) == d,
    decreases k,
{
    if k - 1 != d {
        lemma_last_dot_at(s, k - 1, d);
    }
}

} // verus!
