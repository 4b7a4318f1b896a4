use vstd::prelude::*;
use vstd::string::*;

verus! {

/// Why a process id could not be read: the text is not a decimal `i32`.
#[derive(Debug, Clone, Copy, PartialEq, Eq, Structural)]
pub enum PidError {
    InvalidData,
}

/// What `String::from_utf8_lossy` makes of the bytes.
pub uninterp spec fn lossy_utf8(b: Seq<u8>) -> Seq<char>;

/// What `str::trim` makes of the characters.
pub uninterp spec fn trimmed(s: Seq<char>) -> Seq<char>;

/// Relies on `String::from_utf8_lossy`: decodes the bytes, replacing invalid
/// sequences; the result depends on the bytes alone.
#[verifier::external_body]
fn decode_lossy(b: &[u8]) -> (r: String)
    ensures
        r@ == lossy_utf8(b@),
{
    String::from_utf8_lossy(b).into_owned()
}

/// Relies on `str::trim`: removes leading and trailing whitespace; the result
/// depends on the characters alone.
#[verifier::external_body]
fn trim_text(s: &str) -> (r: &str)
    ensures
        r@ == trimmed(s@),
{
    s.trim()
}

pub open spec fn is_digit(c: char) -> bool {
    '0' <= c <= '9'
}

pub open spec fn all_digits(s: Seq<char>) -> bool {
    forall|i: int| 0 <= i < s.len() ==> is_digit(#[trigger] s[i])
}

/// The value of a string of decimal digits.
pub open spec fn digits_value(s: Seq<char>) -> int
    decreases s.len(),
{
    if s.len() == 0 {
        0
    } else {
        digits_value(s.drop_last()) * 10 + (s.last() as int - '0' as int)
    }
}

/// Whether the text starts with a sign, and the digits after it.
pub open spec fn unsigned_part(s: Seq<char>) -> Seq<char> {
    if s.len() > 0 && (s[0] == '-' || s[0] == '+') {
        s.drop_first()
    } else {
        s
    }
}

pub open spec fn is_negative(s: Seq<char>) -> bool {
    s.len() > 0 && s[0] == '-'
}

/// The `i32` that the text spells in decimal: an optional `+` or `-`, then
/// one or more digits, with a value in `i32`'s range; `None` for any other
/// text.
pub open spec fn decimal_i32(s: Seq<char>) -> Option<int> {
    let body = unsigned_part(s);
    if body.len() > 0 && all_digits(body) {
        let v = if is_negative(s) {
            -digits_value(body)
        } else {
            digits_value(body)
        };
        if i32::MIN <= v <= i32::MAX {
            Some(v)
        } else {
            None
        }
    } else {
        None
    }
}

/// The result of reading a process id from already trimmed text.
pub open spec fn pid_result(s: Seq<char>) -> Result<i32, PidError> {
    match decimal_i32(s) {
        Some(v) => Ok(v as i32),
        None => Err(PidError::InvalidData),
    }
}

/// Reads a process id from trimmed text: a decimal `i32` with an optional
/// sign and nothing else.
pub fn parse_pid_text(t: &str) -> (r: Result<i32, PidError>)
    ensures
        r == pid_result(t@),
{
    let n = t.unicode_len();
    let mut start: usize = 0;
    let mut negative = false;
    if n > 0 {
        let c0 = t.get_char(0);
        if c0 == '-' {
            negative = true;
            start = 1;
        } else if c0 == '+' {
            start = 1;
        }
    }
    let ghost body = unsigned_part(t@);
    proof {
        assert(body =~= t@.subrange(start as int, n as int));
        assert(negative == is_negative(t@));
    }
    if start == n {
        return Err(PidError::InvalidData);
    }
    // Magnitudes up to 2^31 are tracked exactly; past that the text is out
    // of range whatever follows.
    let limit: i64 = 2147483648;
    let mut acc: i64 = 0;
    let mut too_large = false;
    let mut i: usize = start;
    while i < n
        invariant
            start <= i <= n,
            n == t@.len(),
            body == t@.subrange(start as int, n as int),
            body == unsigned_part(t@),
            negative == is_negative(t@),
            all_digits(t@.subrange(start as int, i as int)),
            !too_large ==> 0 <= acc <= limit && acc == digits_value(
                t@.subrange(start as int, i as int),
            ),
            too_large ==> digits_value(t@.subrange(start as int, i as int)) > limit,
            limit == 2147483648,
        decreases n - i,
    {
        let c = t.get_char(i);
        let ghost prefix = t@.subrange(start as int, i as int);
        let ghost next = t@.subrange(start as int, i + 1);
        proof {
            assert(next.drop_last() =~= prefix);
            assert(next.last() == c);
        }
        if !('0' <= c && c <= '9') {
            proof {
                assert(body[i - start] == c);
                assert(!is_digit(body[i - start]));
                assert(!all_digits(body));
            }
            return Err(PidError::InvalidData);
        }
        let d = (c as u32 - '0' as u32) as i64;
        if !too_large {
            acc = acc * 10 + d;
            if acc > limit {
                too_large = true;
            }
        }
        proof {
            assert forall|j: int| 0 <= j < next.len() implies is_digit(#[trigger] next[j]) by {
                if j < prefix.len() {
                    assert(next[j] == prefix[j]);
                }
            }
        }
        i = i + 1;
    }
    proof {
        assert(t@.subrange(start as int, n as int) == body);
    }
    if too_large {
        return Err(PidError::InvalidData);
    }
    let v: i64 = if negative { -acc } else { acc };
    if v > 2147483647 {
        return Err(PidError::InvalidData);
    }
    Ok(v as i32)
}

/// The result of reading a process id from the raw contents of a pid file.
pub open spec fn pid_of_bytes(b: Seq<u8>) -> Result<i32, PidError> {
    pid_result(trimmed(lossy_utf8(b)))
}

/// Reads a process id from the raw contents of a pid file: the bytes are
/// decoded as UTF-8 (invalid sequences replaced), surrounding whitespace is
/// dropped, and the rest must be a decimal `i32`.
pub fn parse_pid(b: &[u8]) -> (r: Result<i32, PidError>)
    ensures
        r == pid_of_bytes(b@),
{
    let text = decode_lossy(b);
    let t = trim_text(text.as_str());
    parse_pid_text(t)
}

} // verus!
