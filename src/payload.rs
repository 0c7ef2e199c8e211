use vstd::prelude::*;
use vstd::string::*;
use crate::text::{char_is_space, chars_of, has_prefix, is_space};

verus! {

/// Value of a hexadecimal digit (either case).
pub open spec fn hex_digit_value(c: char) -> int {
    if '0' <= c && c <= '9' {
        c as int - '0' as int
    } else if 'a' <= c && c <= 'f' {
        c as int - 'a' as int + 10
    } else {
        c as int - 'A' as int + 10
    }
}

pub open spec fn is_hex_digit(c: char) -> bool {
    ('0' <= c && c <= '9') || ('a' <= c && c <= 'f') || ('A' <= c && c <= 'F')
}

/// Text that decodes as hexadecimal: an even number of hex digits.
pub open spec fn is_hex_text(s: Seq<char>) -> bool {
    s.len() % 2 == 0 && forall|i: int| 0 <= i < s.len() ==> is_hex_digit(#[trigger] s[i])
}

/// The bytes that hexadecimal text stands for, two digits per byte.
pub open spec fn hex_bytes(s: Seq<char>) -> Seq<u8> {
    Seq::new(
        s.len() / 2,
        |i: int| (hex_digit_value(s[2 * i]) * 16 + hex_digit_value(s[2 * i + 1])) as u8,
    )
}

/// Relies on hex::decode: `Ok` exactly on an even number of hex digits (either
/// case), each pair giving one byte, high nibble first; otherwise an error.
#[verifier::external_body]
fn decode_hex(s: &str) -> (r: Option<Vec<u8>>)
    ensures
        r is Some <==> is_hex_text(s@),
        r is Some ==> r->0@ == hex_bytes(s@),
{
    hex::decode(s).ok()
}

/// The text that `String::from_utf8_lossy` makes of a byte sequence.
pub uninterp spec fn utf8_lossy(b: Seq<u8>) -> Seq<char>;

/// Relies on String::from_utf8_lossy: the text depends on the bytes alone.
#[verifier::external_body]
fn lossy_text(b: &Vec<u8>) -> (r: String)
    ensures
        r@ == utf8_lossy(b@),
{
    String::from_utf8_lossy(b.as_slice()).into_owned()
}

/// One past the last non-space character among the first `n` of `s`, or 0.
pub open spec fn content_end(s: Seq<char>, n: int) -> int
    decreases n,
{
    if n <= 0 {
        0
    } else if is_space(s[n - 1]) {
        content_end(s, n - 1)
    } else {
        n
    }
}

/// Start of the run of non-space characters of `s` that ends at `e`.
pub open spec fn run_start(s: Seq<char>, e: int) -> int
    decreases e,
{
    if e <= 0 {
        0
    } else if is_space(s[e - 1]) {
        e
    } else {
        run_start(s, e - 1)
    }
}

/// Whether `s` holds at least one whitespace-separated token.
pub open spec fn has_token(s: Seq<char>) -> bool {
    content_end(s, s.len() as int) > 0
}

/// The last whitespace-separated token of `s` (empty if there is none).
pub open spec fn last_token(s: Seq<char>) -> Seq<char> {
    let e = content_end(s, s.len() as int);
    s.subrange(run_start(s, e), e)
}

/// Whether `s` holds a token before its last one.
pub open spec fn has_several_tokens(s: Seq<char>) -> bool {
    content_end(s, run_start(s, content_end(s, s.len() as int))) > 0
}

/// The marker token that opens a data-carrying output script.
pub open spec fn marker() -> Seq<char> {
    "OP_RETURN"@
}

pub open spec fn starts_with_marker(s: Seq<char>) -> bool {
    marker().len() <= s.len() && s.take(marker().len() as int) == marker()
}

/// The (encoded, decoded) payload of a marker script.
pub open spec fn payload_of(s: Seq<char>) -> (Seq<char>, Seq<char>) {
    let t = last_token(s);
    if has_token(s) && is_hex_text(t) {
        (t, utf8_lossy(hex_bytes(t)))
    } else if has_several_tokens(s) {
        (t, "Invalid hex data"@)
    } else {
        ("No data found"@, ""@)
    }
}

/// Whether an output script description begins with the marker token.
pub fn is_marker_script(script_asm: &str) -> (r: bool)
    ensures
        r == starts_with_marker(script_asm@),
{
    let cs = chars_of(script_asm);
    let m = chars_of("OP_RETURN");
    has_prefix(&cs, &m)
}

/// Extracts the payload of an output script description: the encoded text (the
/// last token) and the text its hex decodes to, or the placeholders.
pub fn extract_op_return_data(script_asm: &str) -> (r: (String, String))
    ensures
        (r.0@, r.1@) == payload_of(script_asm@),
{
    let cs = chars_of(script_asm);
    let ghost s = script_asm@;
    let mut e: usize = cs.len();
    while e > 0 && char_is_space(cs[e - 1])
        invariant
            cs@ == s,
            e <= s.len(),
            content_end(s, s.len() as int) == content_end(s, e as int),
        decreases e,
    {
        e = e - 1;
    }
    assert(content_end(s, e as int) == e);
    let mut st: usize = e;
    while st > 0 && !char_is_space(cs[st - 1])
        invariant
            cs@ == s,
            st <= e <= s.len(),
            run_start(s, e as int) == run_start(s, st as int),
        decreases st,
    {
        st = st - 1;
    }
    assert(run_start(s, st as int) == st);
    let mut p: usize = st;
    while p > 0 && char_is_space(cs[p - 1])
        invariant
            cs@ == s,
            p <= st <= s.len(),
            content_end(s, st as int) == content_end(s, p as int),
        decreases p,
    {
        p = p - 1;
    }
    assert(content_end(s, p as int) == p);
    let token: String = script_asm.substring_char(st, e).to_owned();
    if e > 0 {
        match decode_hex(token.as_str()) {
            Some(bytes) => {
                let ascii = lossy_text(&bytes);
                return (token, ascii);
            },
            None => {},
        }
    }
    if p > 0 {
        (token, "Invalid hex data".to_owned())
    } else {
        ("No data found".to_owned(), "".to_owned())
    }
}

} // verus!
