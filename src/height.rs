use vstd::prelude::*;
use crate::text::chars_of;

verus! {

/// The failures that end a run before pagination.
#[derive(PartialEq, Eq, Structural, Clone, Copy, Debug)]
pub enum PipelineError {
    /// The height given on the command line is not a valid integer.
    InvalidInput,
    /// The upstream service failed, or answered with something unusable.
    UpstreamError,
}

pub open spec fn is_digit(c: char) -> bool {
    '0' <= c && c <= '9'
}

/// The value of a string of decimal digits.
pub open spec fn digits_value(s: Seq<char>) -> nat
    decreases s.len(),
{
    if s.len() == 0 {
        0
    } else {
        digits_value(s.drop_last()) * 10 + (s.last() as int - '0' as int) as nat
    }
}

/// The digits of a height text: a leading `+` is allowed.
pub open spec fn unsigned_digits(s: Seq<char>) -> Seq<char> {
    if s.len() > 0 && s[0] == '+' {
        s.drop_first()
    } else {
        s
    }
}

/// The height a text stands for: one or more decimal digits, optionally after
/// a `+`, whose value fits in 32 bits.
pub open spec fn height_value(s: Seq<char>) -> Option<u32> {
    let d = unsigned_digits(s);
    if d.len() > 0 && (forall|i: int| 0 <= i < d.len() ==> is_digit(#[trigger] d[i]))
        && digits_value(d) <= u32::MAX {
        Some(digits_value(d) as u32)
    } else {
        None
    }
}

proof fn lemma_digits_value_grows(d: Seq<char>, k: int)
    requires
        0 <= k <= d.len(),
        forall|i: int| 0 <= i < d.len() ==> is_digit(#[trigger] d[i]),
    ensures
        digits_value(d.take(k)) <= digits_value(d),
    decreases d.len(),
{
    if k < d.len() {
        let p = d.drop_last();
        assert(p.take(k) =~= d.take(k));
        assert forall|i: int| 0 <= i < p.len() implies is_digit(#[trigger] p[i]) by {
            assert(p[i] == d[i]);
        }
        lemma_digits_value_grows(p, k);
    } else {
        assert(d.take(k) =~= d);
    }
}

/// Parses a block height written in decimal.
pub fn parse_height(s: &str) -> (r: Option<u32>)
    ensures
        r == height_value(s@),
{
    let cs = chars_of(s);
    let start: usize = if cs.len() > 0 && cs[0] == '+' { 1 } else { 0 };
    let ghost d = unsigned_digits(s@);
    assert(d =~= cs@.subrange(start as int, cs@.len() as int));
    if start >= cs.len() {
        return None;
    }
    let mut acc: u64 = 0;
    let mut i: usize = start;
    while i < cs.len()
        invariant
            cs@ == s@,
            d == cs@.subrange(start as int, cs@.len() as int),
            d == unsigned_digits(s@),
            start <= i <= cs@.len(),
            forall|j: int| 0 <= j < i - start ==> is_digit(#[trigger] d[j]),
            acc == digits_value(d.take(i - start)),
            acc <= u32::MAX,
        decreases cs@.len() - i,
    {
        let c = cs[i];
        let ghost k = i - start;
        assert(d[k] == c);
        if !('0' <= c && c <= '9') {
            assert(!is_digit(d[k]));
            return None;
        }
        assert(d.take(k + 1).drop_last() =~= d.take(k));
        assert(d.take(k + 1).last() == c);
        acc = acc * 10 + (c as u64 - '0' as u64);
        i = i + 1;
        if acc > 0xFFFF_FFFF {
            proof {
                if forall|j: int| 0 <= j < d.len() ==> is_digit(#[trigger] d[j]) {
                    lemma_digits_value_grows(d, k + 1);
                }
            }
            return None;
        }
    }
    assert(d.take(d.len() as int) =~= d);
    Some(acc as u32)
}

/// The height to work on: the one given, parsed, or `None` where none was
/// given and the chain tip is to be asked for.
pub fn resolve_target_height(explicit: Option<&str>) -> (r: Result<Option<u32>, PipelineError>)
    ensures
        explicit is None ==> r == Ok::<Option<u32>, PipelineError>(None),
        explicit is Some ==> r == match height_value(explicit->0@) {
            Some(h) => Ok(Some(h)),
            None => Err(PipelineError::InvalidInput),
        },
{
    match explicit {
        None => Ok(None),
        Some(s) => match parse_height(s) {
            Some(h) => Ok(Some(h)),
            None => Err(PipelineError::InvalidInput),
        },
    }
}

/// Reads the chain-tip height from the body the upstream service returned.
pub fn parse_tip_height(body: &str) -> (r: Result<u32, PipelineError>)
    ensures
        r == match height_value(body@) {
            Some(h) => Ok(h),
            None => Err(PipelineError::UpstreamError),
        },
{
    match parse_height(body) {
        Some(h) => Ok(h),
        None => Err(PipelineError::UpstreamError),
    }
}

} // verus!
