//! Language servers: which server a file's language uses, and the framing
//! of the messages exchanged with one (`Content-Length` headers).
use vstd::prelude::*;
use crate::paths::{extension_of, path_extension};
use crate::buffer::Buffer;
use crate::text::{line_of, line_start, lemma_line_of_bounds};
use crate::strs::{utf16_len, len_utf16, lemma_byte_len_concat, lemma_byte_len_subrange};
use crate::strs::{byte_len, chars_of, decimal, push_decimal, str_to_string, string_of_chars, string_push_str,
    trim, trim_bounds};

verus! {

/// The command that starts a language server and its arguments.
pub struct LspConfig {
    pub cmd: String,
    pub args: Vec<String>,
}

/// The server for language `language_id`: `rust-analyzer` for Rust, none
/// for any other language.
pub fn get_config(language_id: &str) -> (r: Option<LspConfig>)
    ensures
        language_id@ == "rust"@ ==> (r matches Some(c) && c.cmd@ == "rust-analyzer"@ && c.args@.len() == 0),
        language_id@ != "rust"@ ==> r is None,
{
    if crate::strs::str_eq(language_id, "rust") {
        Some(LspConfig { cmd: str_to_string("rust-analyzer"), args: Vec::new() })
    } else {
        None
    }
}

/// The language of files with extension `ext`: Rust for `rs`.
pub fn language_for_extension(ext: Option<&str>) -> (r: Option<String>)
    ensures
        (ext matches Some(e) && e@ == "rs"@) ==> (r matches Some(l) && l@ == "rust"@),
        !(ext matches Some(e) && e@ == "rs"@) ==> r is None,
{
    match ext {
        Some(e) => if crate::strs::str_eq(e, "rs") {
            Some(str_to_string("rust"))
        } else {
            None
        },
        None => None,
    }
}

/// The language of the file at `path`, from its extension.
pub fn detect_language_from_path(path: &str) -> (r: Option<String>)
    ensures
        (extension_of(path@) matches Some(e) && e == "rs"@) ==> (r matches Some(l) && l@ == "rust"@),
        !(extension_of(path@) matches Some(e) && e == "rs"@) ==> r is None,
{
    let ext = path_extension(path);
    match &ext {
        Some(e) => language_for_extension(Some(e.as_str())),
        None => language_for_extension(None),
    }
}

/// UTF-16 code units of `s`.
pub open spec fn utf16_count(s: Seq<char>) -> nat
    decreases s.len(),
{
    if s.len() == 0 {
        0
    } else {
        utf16_count(s.drop_last()) + utf16_len(s.last())
    }
}

/// A text takes no more UTF-16 code units than UTF-8 bytes.
proof fn lemma_utf16_le_bytes(s: Seq<char>)
    ensures
        utf16_count(s) <= byte_len(s),
    decreases s.len(),
{
    if s.len() > 0 {
        lemma_utf16_le_bytes(s.drop_last());
        assert(s.drop_last() + seq![s.last()] =~= s);
        lemma_byte_len_concat(s.drop_last(), seq![s.last()]);
        assert(seq![s.last()].drop_first() =~= Seq::<char>::empty());
    }
}

/// The protocol's position of char index `cursor` of `buffer`: its line,
/// and its column counted in UTF-16 code units.
pub fn lsp_position(buffer: &Buffer, cursor: usize) -> (r: (usize, usize))
    requires
        buffer.wf(),
        cursor <= buffer@.len(),
    ensures
        r.0 == line_of(buffer@, cursor as int),
        r.1 == utf16_count(buffer@.subrange(line_start(buffer@, line_of(buffer@, cursor as int)), cursor as int)),
{
    let ghost t = buffer@;
    proof {
        lemma_line_of_bounds(t, cursor as int);
        buffer.lemma_wf_fits();
    }
    let line = buffer.char_to_line(cursor);
    let start = buffer.line_to_char(line);
    let mut n: usize = 0;
    let mut i: usize = start;
    while i < cursor
        invariant
            start <= i <= cursor <= t.len(),
            t == buffer@,
            buffer.wf(),
            byte_len(t) <= usize::MAX,
            n == utf16_count(t.subrange(start as int, i as int)),
        decreases cursor - i,
    {
        let c = buffer.char_at(i);
        proof {
            assert(t.subrange(start as int, i + 1).drop_last() =~= t.subrange(start as int, i as int));
            lemma_utf16_le_bytes(t.subrange(start as int, i + 1));
            lemma_byte_len_subrange(t, start as int, i + 1);
        }
        n = n + len_utf16(c);
        i = i + 1;
    }
    (line, n)
}

/// The value of the decimal digits `d`.
pub open spec fn digits_value(d: Seq<char>) -> nat
    decreases d.len(),
{
    if d.len() == 0 {
        0
    } else {
        digits_value(d.drop_last()) * 10 + ((d.last() as nat) - ('0' as nat)) as nat
    }
}

/// Whether every char of `d` is a decimal digit.
pub open spec fn all_digits(d: Seq<char>) -> bool {
    forall|i: int| 0 <= i < d.len() ==> '0' <= #[trigger] d[i] <= '9'
}

/// `s` read as a `usize` the way `str::parse` reads one: an optional `+`,
/// then at least one decimal digit, the value fitting a `usize`.
pub open spec fn parse_usize_spec(s: Seq<char>) -> Option<usize> {
    let d = if s.len() > 0 && s[0] == '+' { s.drop_first() } else { s };
    if d.len() > 0 && all_digits(d) && digits_value(d) <= usize::MAX {
        Some(digits_value(d) as usize)
    } else {
        None
    }
}

/// Reads the chars `v[from..to]` as a `usize` (see `parse_usize_spec`).
pub fn parse_usize(v: &Vec<char>, from: usize, to: usize) -> (r: Option<usize>)
    requires
        from <= to <= v@.len(),
    ensures
        r == parse_usize_spec(v@.subrange(from as int, to as int)),
{
    let ghost s = v@.subrange(from as int, to as int);
    let mut i = from;
    if i < to && v[i] == '+' {
        i = i + 1;
        proof {
            assert(s.drop_first() =~= v@.subrange(i as int, to as int));
        }
    } else {
        proof {
            assert(s =~= v@.subrange(i as int, to as int));
        }
    }
    let ghost d = v@.subrange(i as int, to as int);
    assert(d == (if s.len() > 0 && s[0] == '+' { s.drop_first() } else { s }));
    if i == to {
        return None;
    }
    let start = i;
    let mut value: usize = 0;
    while i < to
        invariant
            from <= start <= i <= to <= v@.len(),
            d == v@.subrange(start as int, to as int),
            s == v@.subrange(from as int, to as int),
            d == (if s.len() > 0 && s[0] == '+' { s.drop_first() } else { s }),
            d.len() > 0,
            all_digits(v@.subrange(start as int, i as int)),
            value == digits_value(v@.subrange(start as int, i as int)),
        decreases to - i,
    {
        let c = v[i];
        proof {
            assert(v@.subrange(start as int, i as int + 1).drop_last() =~= v@.subrange(start as int, i as int));
            assert(v@.subrange(start as int, i as int + 1).last() == c);
        }
        if c < '0' || c > '9' {
            proof {
                assert(d[i - start] == c);
                assert(!all_digits(d));
            }
            return None;
        }
        let digit = ((c as u32) - ('0' as u32)) as usize;
        if value > (usize::MAX - digit) / 10 {
            proof {
                lemma_digits_value_prefix(d, i - start + 1);
                assert(d.take(i - start + 1) =~= v@.subrange(start as int, i as int + 1));
                assert(digits_value(d.take(i - start + 1)) > usize::MAX) by (nonlinear_arith)
                    requires
                        digits_value(d.take(i - start + 1)) == value * 10 + digit,
                        value > (usize::MAX - digit) / 10,
                        digit <= 9,
                ;
                if all_digits(d) {
                    lemma_digits_value_mono(d, i - start + 1);
                }
            }
            return None;
        }
        value = value * 10 + digit;
        proof {
            assert(all_digits(v@.subrange(start as int, i as int + 1))) by {
                assert forall|k: int| 0 <= k < i - start + 1 implies '0' <= #[trigger] v@.subrange(start as int, i as int + 1)[k]
                    <= '9' by {
                    if k < i - start {
                        assert(v@.subrange(start as int, i as int + 1)[k] == v@.subrange(start as int, i as int)[k]);
                    }
                }
            }
        }
        i = i + 1;
    }
    Some(value)
}

/// The value of a prefix of `d`.
proof fn lemma_digits_value_prefix(d: Seq<char>, n: int)
    requires
        0 < n <= d.len(),
    ensures
        digits_value(d.take(n)) == digits_value(d.take(n - 1)) * 10 + ((d[n - 1] as nat) - ('0' as nat)) as nat,
{
    assert(d.take(n).drop_last() =~= d.take(n - 1));
}

/// A longer run of digits is worth at least as much as its prefix.
proof fn lemma_digits_value_mono(d: Seq<char>, n: int)
    requires
        0 <= n <= d.len(),
        all_digits(d),
    ensures
        digits_value(d.take(n)) <= digits_value(d),
    decreases d.len() - n,
{
    if n < d.len() {
        lemma_digits_value_mono(d, n + 1);
        lemma_digits_value_prefix(d, n + 1);
        assert('0' <= d[n] <= '9');
        assert(digits_value(d.take(n)) <= digits_value(d.take(n)) * 10) by (nonlinear_arith);
    } else {
        assert(d.take(n) =~= d);
    }
}

/// What one header line of a message from a language server says.
pub enum HeaderLine {
    /// The blank line that ends the headers.
    End,
    /// A `Content-Length` header, with its value when it reads as a number.
    ContentLength(Option<usize>),
    /// Any other header.
    Other,
}

/// Whether `t` starts with `Content-Length:`.
pub open spec fn is_length_header(t: Seq<char>) -> bool {
    t.len() >= 15 && t.take(15) == "Content-Length:"@
}

/// What header line `line` says: blank (after trimming) ends the headers;
/// `Content-Length:` gives the body's length in bytes.
pub fn parse_header_line(line: &str) -> (r: HeaderLine)
    ensures
        trim(line@).len() == 0 ==> r is End,
        trim(line@).len() > 0 && is_length_header(trim(line@)) ==> r == HeaderLine::ContentLength(
            parse_usize_spec(trim(trim(line@).skip(15))),
        ),
        trim(line@).len() > 0 && !is_length_header(trim(line@)) ==> r is Other,
{
    let v = chars_of(line);
    let (a, b) = trim_bounds(&v, 0, v.len());
    proof {
        assert(v@.subrange(0, v@.len() as int) =~= v@);
    }
    if a == b {
        return HeaderLine::End;
    }
    let prefix = chars_of("Content-Length:");
    proof {
        reveal_strlit("Content-Length:");
    }
    let t = crate::strs::string_of_chars(&v, a, b);
    let tv = chars_of(t.as_str());
    if !crate::strs::chars_start_with(&tv, &prefix) {
        return HeaderLine::Other;
    }
    let (pa, pb) = trim_bounds(&v, a + 15, b);
    proof {
        assert(trim(line@).skip(15) =~= v@.subrange(a + 15, b as int));
    }
    HeaderLine::ContentLength(parse_usize(&v, pa, pb))
}

/// A message to a language server: `Content-Length: N`, a blank line, and
/// the body, N being the body's length in bytes.
pub fn frame_message(body: &str) -> (r: String)
    ensures
        r@ == "Content-Length: "@ + decimal(byte_len(body@) as usize as nat) + "\r\n\r\n"@ + body@,
{
    let mut s = str_to_string("Content-Length: ");
    push_decimal(&mut s, body.len());
    string_push_str(&mut s, "\r\n\r\n");
    string_push_str(&mut s, body);
    s
}

} // verus!
