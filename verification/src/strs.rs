//! Chars and strings: the facts this crate relies on about std's char and
//! string operations, and small verified helpers built on them.
use vstd::prelude::*;
use vstd::utf8::encode_utf8;

verus! {

/// Number of bytes in the UTF-8 encoding of `s`.
pub open spec fn byte_len(s: Seq<char>) -> nat {
    encode_utf8(s).len()
}

/// The characters with the Unicode `White_Space` property.
pub open spec fn is_unicode_whitespace(c: char) -> bool {
    let u = c as u32;
    (0x9 <= u <= 0xD) || u == 0x20 || u == 0x85 || u == 0xA0 || u == 0x1680 || (0x2000 <= u
        <= 0x200A) || u == 0x2028 || u == 0x2029 || u == 0x202F || u == 0x205F || u == 0x3000
}

/// The characters of general category `Cc`.
pub open spec fn is_unicode_control(c: char) -> bool {
    let u = c as u32;
    u <= 0x1F || (0x7F <= u <= 0x9F)
}

/// Whether a char is alphabetic or numeric in Unicode's sense.
pub uninterp spec fn char_alphanumeric(c: char) -> bool;

/// The lower-case mapping of a string.
pub uninterp spec fn str_lowercase(s: Seq<char>) -> Seq<char>;

/// The decimal digits `0`..`9`.
pub open spec fn is_digit(c: char) -> bool {
    '0' <= c <= '9'
}

/// Number of UTF-16 code units of a char.
pub open spec fn utf16_len(c: char) -> nat {
    if (c as u32) >= 0x10000 { 2 } else { 1 }
}

/// Whether `c` has the Unicode `White_Space` property (`char::is_whitespace`).
pub(crate) fn char_is_whitespace(c: char) -> (b: bool)
    ensures
        b == is_unicode_whitespace(c),
{
    let u = c as u32;
    (0x9 <= u && u <= 0xD) || u == 0x20 || u == 0x85 || u == 0xA0 || u == 0x1680 || (0x2000 <= u && u
        <= 0x200A) || u == 0x2028 || u == 0x2029 || u == 0x202F || u == 0x205F || u == 0x3000
}

/// Whether `c` is of general category `Cc` (`char::is_control`).
pub(crate) fn char_is_control(c: char) -> (b: bool)
    ensures
        b == is_unicode_control(c),
{
    let u = c as u32;
    u <= 0x1F || (0x7F <= u && u <= 0x9F)
}

/// `char::is_alphanumeric`, named by `char_alphanumeric`.
#[verifier::external_body]
pub(crate) fn char_is_alphanumeric(c: char) -> (b: bool)
    ensures
        b == char_alphanumeric(c),
{
    c.is_alphanumeric()
}

/// `str::to_lowercase`, named by `str_lowercase`.
#[verifier::external_body]
pub(crate) fn to_lowercase(s: &str) -> (r: String)
    ensures
        r@ == str_lowercase(s@),
{
    s.to_lowercase()
}

/// `String::push`: appends one char.
#[verifier::external_body]
pub(crate) fn string_push(s: &mut String, c: char)
    ensures
        final(s)@ == old(s)@.push(c),
{
    s.push(c)
}

/// `String::pop`: removes and returns the last char.
#[verifier::external_body]
pub(crate) fn string_pop(s: &mut String) -> (r: Option<char>)
    ensures
        old(s)@.len() == 0 ==> r is None && final(s)@ == old(s)@,
        old(s)@.len() > 0 ==> r == Some(old(s)@.last()) && final(s)@ == old(s)@.drop_last(),
{
    s.pop()
}

/// Empties `s`.
pub(crate) fn string_clear(s: &mut String)
    ensures
        final(s)@ == Seq::<char>::empty(),
{
    *s = String::new();
}

/// The one-char string of `c`.
pub(crate) fn char_to_string(c: char) -> (r: String)
    ensures
        r@ == seq![c],
{
    let mut r = String::new();
    string_push(&mut r, c);
    r
}

/// An owned copy of `s`.
pub(crate) fn str_to_string(s: &str) -> (r: String)
    ensures
        r@ == s@,
{
    s.to_owned()
}

/// Appends `t` to `s`.
pub(crate) fn string_push_str(s: &mut String, t: &str)
    ensures
        final(s)@ == old(s)@ + t@,
{
    s.append(t)
}

/// The number of chars in `s`.
pub(crate) fn str_char_count(s: &str) -> (n: usize)
    ensures
        n == s@.len(),
{
    s.unicode_len()
}

/// The first char of `s`.
pub(crate) fn str_first_char(s: &str) -> (c: char)
    requires
        s@.len() > 0,
    ensures
        c == s@[0],
{
    s.get_char(0)
}

/// Whether `s` ends with `c`.
pub(crate) fn str_ends_with_char(s: &str, c: char) -> (b: bool)
    ensures
        b == (s@.len() > 0 && s@.last() == c),
{
    let n = s.unicode_len();
    n > 0 && s.get_char(n - 1) == c
}

/// Whether `a` and `b` hold the same chars.
pub(crate) fn str_eq(a: &str, b: &str) -> (r: bool)
    ensures
        r == (a@ == b@),
{
    let n = a.unicode_len();
    if n != b.unicode_len() {
        return false;
    }
    let mut i: usize = 0;
    while i < n
        invariant
            n == a@.len(),
            n == b@.len(),
            i <= n,
            forall|k: int| 0 <= k < i ==> a@[k] == b@[k],
        decreases n - i,
    {
        if a.get_char(i) != b.get_char(i) {
            return false;
        }
        i = i + 1;
    }
    assert(a@ =~= b@);
    true
}

/// Whether a char is an ASCII decimal digit (`char::is_ascii_digit`).
pub(crate) fn is_ascii_digit(c: char) -> (b: bool)
    ensures
        b == is_digit(c),
{
    c >= '0' && c <= '9'
}

/// Number of UTF-16 code units that encode `c` (`char::len_utf16`).
pub(crate) fn len_utf16(c: char) -> (n: usize)
    ensures
        n == utf16_len(c),
{
    if (c as u32) >= 0x10000 {
        2
    } else {
        1
    }
}

/// Encoding a concatenation concatenates the encodings.
pub proof fn lemma_encode_concat(a: Seq<char>, b: Seq<char>)
    ensures
        encode_utf8(a + b) == encode_utf8(a) + encode_utf8(b),
    decreases a.len(),
{
    if a.len() == 0 {
        assert(a + b =~= b);
        assert(encode_utf8(a) =~= Seq::<u8>::empty());
        assert(encode_utf8(a) + encode_utf8(b) =~= encode_utf8(b));
    } else {
        assert((a + b).drop_first() =~= a.drop_first() + b);
        assert((a + b)[0] == a[0]);
        lemma_encode_concat(a.drop_first(), b);
        assert(encode_utf8(a + b) =~= encode_utf8(a) + encode_utf8(b));
    }
}

/// Byte lengths of a concatenation add up.
pub proof fn lemma_byte_len_concat(a: Seq<char>, b: Seq<char>)
    ensures
        byte_len(a + b) == byte_len(a) + byte_len(b),
{
    lemma_encode_concat(a, b);
}

/// Every char takes at least one byte.
pub proof fn lemma_byte_len_ge(s: Seq<char>)
    ensures
        s.len() <= byte_len(s),
    decreases s.len(),
{
    if s.len() > 0 {
        lemma_byte_len_ge(s.drop_first());
    }
}

/// The bytes of a piece of a text are no more than the text's, and the
/// chars before the piece take at least one byte each.
pub proof fn lemma_byte_len_subrange(s: Seq<char>, i: int, j: int)
    requires
        0 <= i <= j <= s.len(),
    ensures
        i + byte_len(s.subrange(i, j)) <= byte_len(s),
        byte_len(s.subrange(i, j)) <= byte_len(s),
{
    assert(s =~= s.take(i) + s.subrange(i, j) + s.skip(j));
    lemma_byte_len_concat(s.take(i) + s.subrange(i, j), s.skip(j));
    lemma_byte_len_concat(s.take(i), s.subrange(i, j));
    lemma_byte_len_ge(s.take(i));
}

} // verus!

verus! {

/// Bytes after replacing `t[p..q]` by `x`.
pub proof fn lemma_byte_len_splice(t: Seq<char>, p: int, q: int, x: Seq<char>)
    requires
        0 <= p <= q <= t.len(),
    ensures
        byte_len(t.take(p) + x + t.skip(q)) + byte_len(t.subrange(p, q)) == byte_len(t) + byte_len(x),
        p + byte_len(x) <= byte_len(t.take(p) + x + t.skip(q)),
{
    assert(t =~= t.take(p) + t.subrange(p, q) + t.skip(q));
    lemma_byte_len_concat(t.take(p) + t.subrange(p, q), t.skip(q));
    lemma_byte_len_concat(t.take(p), t.subrange(p, q));
    lemma_byte_len_concat(t.take(p) + x, t.skip(q));
    lemma_byte_len_concat(t.take(p), x);
    lemma_byte_len_ge(t.take(p));
}


/// The chars of `s`, in order.
pub fn chars_of(s: &str) -> (v: Vec<char>)
    ensures
        v@ == s@,
{
    let n = s.unicode_len();
    let mut v: Vec<char> = Vec::new();
    let mut i: usize = 0;
    while i < n
        invariant
            n == s@.len(),
            i <= n,
            v@ == s@.take(i as int),
        decreases n - i,
    {
        v.push(s.get_char(i));
        proof {
            assert(s@.take(i as int).push(s@[i as int]) =~= s@.take(i as int + 1));
        }
        i = i + 1;
    }
    assert(s@.take(n as int) =~= s@);
    v
}

/// A string holding the chars `v[from..to]`.
pub fn string_of_chars(v: &Vec<char>, from: usize, to: usize) -> (r: String)
    requires
        from <= to <= v@.len(),
    ensures
        r@ == v@.subrange(from as int, to as int),
{
    let mut r = String::new();
    let mut i = from;
    while i < to
        invariant
            from <= i <= to <= v@.len(),
            r@ == v@.subrange(from as int, i as int),
        decreases to - i,
    {
        string_push(&mut r, v[i]);
        proof {
            assert(v@.subrange(from as int, i as int).push(v@[i as int]) =~= v@.subrange(from as int, i as int + 1));
        }
        i = i + 1;
    }
    r
}

/// `s` without its leading whitespace.
pub open spec fn trim_start(s: Seq<char>) -> Seq<char>
    decreases s.len(),
{
    if s.len() > 0 && is_unicode_whitespace(s[0]) {
        trim_start(s.drop_first())
    } else {
        s
    }
}

/// `s` without its trailing whitespace.
pub open spec fn trim_end(s: Seq<char>) -> Seq<char>
    decreases s.len(),
{
    if s.len() > 0 && is_unicode_whitespace(s.last()) {
        trim_end(s.drop_last())
    } else {
        s
    }
}

/// `s` without leading and trailing whitespace (`str::trim`).
pub open spec fn trim(s: Seq<char>) -> Seq<char> {
    trim_end(trim_start(s))
}

/// The bounds `(a, b)` of `trim(v[from..to])` within `v`.
pub fn trim_bounds(v: &Vec<char>, from: usize, to: usize) -> (r: (usize, usize))
    requires
        from <= to <= v@.len(),
    ensures
        from <= r.0 <= r.1 <= to,
        v@.subrange(r.0 as int, r.1 as int) == trim(v@.subrange(from as int, to as int)),
{
    let mut a = from;
    while a < to && char_is_whitespace(v[a])
        invariant
            from <= a <= to <= v@.len(),
            trim_start(v@.subrange(from as int, to as int)) == trim_start(v@.subrange(a as int, to as int)),
        decreases to - a,
    {
        proof {
            assert(v@.subrange(a as int, to as int).drop_first() =~= v@.subrange(a as int + 1, to as int));
        }
        a = a + 1;
    }
    let mut b = to;
    while b > a && char_is_whitespace(v[b - 1])
        invariant
            a <= b <= to <= v@.len(),
            trim_end(v@.subrange(a as int, to as int)) == trim_end(v@.subrange(a as int, b as int)),
        decreases b - a,
    {
        proof {
            assert(v@.subrange(a as int, b as int).drop_last() =~= v@.subrange(a as int, b as int - 1));
        }
        b = b - 1;
    }
    (a, b)
}


/// The index of the char of `t` that byte offset `b` falls in; `t.len()`
/// from its last byte on.
pub open spec fn char_at_byte(t: Seq<char>, b: int) -> int
    decreases t.len(),
{
    if t.len() == 0 || b < byte_len(seq![t[0]]) {
        0
    } else {
        1 + char_at_byte(t.drop_first(), b - byte_len(seq![t[0]]))
    }
}

/// Later bytes fall in later (or the same) chars, all within the text.
pub proof fn lemma_char_at_byte_mono(t: Seq<char>, a: int, b: int)
    requires
        a <= b,
    ensures
        0 <= char_at_byte(t, a) <= char_at_byte(t, b) <= t.len(),
    decreases t.len(),
{
    if t.len() > 0 {
        let w = byte_len(seq![t[0]]);
        if a >= w {
            lemma_char_at_byte_mono(t.drop_first(), a - w, b - w);
        } else if b >= w {
            lemma_char_at_byte_mono(t.drop_first(), 0, b - w);
        }
    }
}

/// Whether `n` occurs in `h` as a run of consecutive chars.
pub open spec fn seq_contains(h: Seq<char>, n: Seq<char>) -> bool {
    exists|i: int| 0 <= i && i + n.len() <= h.len() && #[trigger] h.subrange(i, i + n.len()) == n
}

/// Whether `h` starts with `n`.
pub open spec fn seq_starts_with(h: Seq<char>, n: Seq<char>) -> bool {
    n.len() <= h.len() && h.take(n.len() as int) == n
}

/// Lexicographic order of char sequences by code point, a proper prefix first.
pub open spec fn lex_lt(a: Seq<char>, b: Seq<char>) -> bool
    decreases a.len(),
{
    if a.len() == 0 {
        b.len() > 0
    } else if b.len() == 0 {
        false
    } else if a[0] != b[0] {
        a[0] < b[0]
    } else {
        lex_lt(a.drop_first(), b.drop_first())
    }
}

/// `lex_lt` is irreflexive, asymmetric and total on distinct sequences.
pub proof fn lemma_lex_total(a: Seq<char>, b: Seq<char>)
    ensures
        !lex_lt(a, a),
        lex_lt(a, b) ==> !lex_lt(b, a),
        a != b ==> lex_lt(a, b) || lex_lt(b, a),
    decreases a.len(),
{
    if a.len() > 0 {
        lemma_lex_total(a.drop_first(), a.drop_first());
    }
    if a.len() > 0 && b.len() > 0 {
        lemma_lex_total(a.drop_first(), b.drop_first());
        if a[0] == b[0] && a != b && a.drop_first() == b.drop_first() {
            assert(a =~= seq![a[0]] + a.drop_first());
            assert(b =~= seq![b[0]] + b.drop_first());
        }
    }
    if a.len() == 0 && b.len() == 0 {
        assert(a =~= b);
    }
}

/// `lex_lt` is transitive.
pub proof fn lemma_lex_trans(a: Seq<char>, b: Seq<char>, c: Seq<char>)
    requires
        lex_lt(a, b),
        lex_lt(b, c),
    ensures
        lex_lt(a, c),
    decreases a.len(),
{
    if a.len() > 0 && b.len() > 0 && c.len() > 0 && a[0] == b[0] && b[0] == c[0] {
        lemma_lex_trans(a.drop_first(), b.drop_first(), c.drop_first());
    }
}

/// Whether `a` comes before `b` in code point order.
pub fn chars_lt(a: &Vec<char>, b: &Vec<char>) -> (r: bool)
    ensures
        r == lex_lt(a@, b@),
{
    let mut i: usize = 0;
    assert(a@.skip(0) =~= a@);
    assert(b@.skip(0) =~= b@);
    while i < a.len() && i < b.len() && a[i] == b[i]
        invariant
            i <= a@.len(),
            i <= b@.len(),
            lex_lt(a@, b@) == lex_lt(a@.skip(i as int), b@.skip(i as int)),
        decreases a@.len() - i,
    {
        proof {
            assert(a@.skip(i as int).drop_first() =~= a@.skip(i as int + 1));
            assert(b@.skip(i as int).drop_first() =~= b@.skip(i as int + 1));
        }
        i = i + 1;
    }
    if i == a.len() {
        i < b.len()
    } else if i == b.len() {
        false
    } else {
        a[i] < b[i]
    }
}

/// Whether `h` starts with `n`.
pub fn chars_start_with(h: &Vec<char>, n: &Vec<char>) -> (r: bool)
    ensures
        r == seq_starts_with(h@, n@),
{
    if n.len() > h.len() {
        return false;
    }
    let mut i: usize = 0;
    while i < n.len()
        invariant
            n@.len() <= h@.len(),
            i <= n@.len(),
            forall|j: int| 0 <= j < i ==> h@[j] == n@[j],
        decreases n@.len() - i,
    {
        if h[i] != n[i] {
            assert(h@.take(n@.len() as int)[i as int] != n@[i as int]);
            return false;
        }
        i = i + 1;
    }
    assert(h@.take(n@.len() as int) =~= n@);
    true
}

/// Whether `n` occurs in `h`.
pub fn chars_contain(h: &Vec<char>, n: &Vec<char>) -> (r: bool)
    ensures
        r == seq_contains(h@, n@),
{
    if n.len() > h.len() {
        return false;
    }
    let hl = h.len();
    let last = hl - n.len();
    let mut i: usize = 0;
    loop
        invariant
            hl == h@.len(),
            last == h@.len() - n@.len(),
            n@.len() <= h@.len(),
            i <= last,
            forall|k: int| 0 <= k < i ==> #[trigger] h@.subrange(k, k + n@.len()) != n@,
        decreases last - i,
    {
        let mut j: usize = 0;
        let mut same = true;
        while j < n.len()
            invariant
                i <= last,
                hl == h@.len(),
                last == h@.len() - n@.len(),
                n@.len() <= h@.len(),
                j <= n@.len(),
                same == forall|m: int| 0 <= m < j ==> h@[i + m] == n@[m],
            decreases n@.len() - j,
        {
            if h[i + j] != n[j] {
                same = false;
            }
            j = j + 1;
        }
        if same {
            assert(h@.subrange(i as int, i + n@.len()) =~= n@);
            return true;
        }
        proof {
            let m = choose|m: int| 0 <= m < n@.len() && h@[i + m] != n@[m];
            assert(h@.subrange(i as int, i + n@.len())[m] == h@[i + m]);
        }
        if i == last {
            return false;
        }
        i = i + 1;
    }
}


/// The decimal digit char of `d` (below ten).
pub open spec fn digit_char(d: nat) -> char {
    ((d + '0' as nat) as u32) as char
}

/// The decimal representation of `n`, most significant digit first.
pub open spec fn decimal(n: nat) -> Seq<char>
    decreases n,
{
    if n < 10 {
        seq![digit_char(n)]
    } else {
        decimal(n / 10).push(digit_char(n % 10))
    }
}

/// Appends the decimal representation of `n` to `s`.
pub fn push_decimal(s: &mut String, n: usize)
    ensures
        final(s)@ == old(s)@ + decimal(n as nat),
    decreases n,
{
    if n >= 10 {
        push_decimal(s, n / 10);
    }
    let d = (n % 10) as u32;
    let c = char_from_digit(d);
    let ghost before = s@;
    string_push(s, c);
    proof {
        if n >= 10 {
            assert(s@ =~= old(s)@ + decimal(n as nat));
        } else {
            assert(n % 10 == n);
            assert(s@ =~= old(s)@ + decimal(n as nat));
        }
    }
}

/// The char of decimal digit `d`.
fn char_from_digit(d: u32) -> (c: char)
    requires
        d < 10,
    ensures
        c == digit_char(d as nat),
{
    if d == 0 { '0' } else if d == 1 { '1' } else if d == 2 { '2' } else if d == 3 { '3' } else if d == 4 { '4' }
    else if d == 5 { '5' } else if d == 6 { '6' } else if d == 7 { '7' } else if d == 8 { '8' } else { '9' }
}

} // verus!
