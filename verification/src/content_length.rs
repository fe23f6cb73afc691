//! The metadata probe: reading a resource's byte length out of a
//! `Content-Length` header.

use vstd::prelude::*;

use crate::error::DownloadError;
use crate::transfer::spec_status_is_success;

verus! {

/// An ASCII decimal digit.
pub open spec fn spec_is_ascii_digit(b: u8) -> bool {
    48 <= b && b <= 57
}

pub open spec fn spec_all_digits(s: Seq<u8>) -> bool {
    forall|i: int| 0 <= i < s.len() ==> spec_is_ascii_digit(s[i])
}

/// The value of a string of decimal digits, most significant first.
pub open spec fn spec_digits_value(s: Seq<u8>) -> int
    decreases s.len(),
{
    if s.len() == 0 {
        0
    } else {
        spec_digits_value(s.drop_last()) * 10 + (s.last() - 48)
    }
}

/// The digit run of a header value: an optional leading `+` sign is
/// accepted, as the original decimal reader accepts it.
pub open spec fn spec_digits_part(s: Seq<u8>) -> Seq<u8> {
    if s.len() >= 1 && s[0] == 43 {
        s.drop_first()
    } else {
        s
    }
}

/// What a `Content-Length` header value denotes: a number exactly when
/// the value is a non-empty run of decimal digits (after an optional
/// sign) whose value fits in 64 bits.
pub open spec fn spec_parse_content_length(s: Seq<u8>) -> Option<u64> {
    let digits = spec_digits_part(s);
    if digits.len() > 0 && spec_all_digits(digits) && spec_digits_value(digits) <= u64::MAX {
        Some(spec_digits_value(digits) as u64)
    } else {
        None
    }
}

proof fn lemma_digits_value_nonneg(s: Seq<u8>)
    requires
        spec_all_digits(s),
    ensures
        spec_digits_value(s) >= 0,
    decreases s.len(),
{
    if s.len() > 0 {
        assert(spec_all_digits(s.drop_last()));
        lemma_digits_value_nonneg(s.drop_last());
    }
}

/// Every prefix of a digit run denotes at most the whole run's value.
proof fn lemma_digits_value_prefix(s: Seq<u8>, i: int)
    requires
        spec_all_digits(s),
        0 <= i <= s.len(),
    ensures
        spec_digits_value(s.take(i)) <= spec_digits_value(s),
    decreases s.len() - i,
{
    if i == s.len() {
        assert(s.take(i) =~= s);
    } else {
        assert(s.take(i + 1).drop_last() =~= s.take(i));
        assert(s.take(i + 1).last() == s[i]);
        assert(spec_all_digits(s.take(i)));
        lemma_digits_value_nonneg(s.take(i));
        assert(spec_digits_value(s.take(i + 1)) == spec_digits_value(s.take(i)) * 10 + (s[i]
            - 48));
        lemma_digits_value_prefix(s, i + 1);
    }
}

/// Read a decimal byte length out of a raw header value.
///
/// Returns the number exactly when the value is a non-empty digit run
/// (after an optional `+`) that fits in a `u64`; anything else — a
/// missing run, a stray byte, a value past `u64::MAX` — yields `None`.
pub fn parse_content_length(raw: &[u8]) -> (r: Option<u64>)
    ensures
        r == spec_parse_content_length(raw@),
{
    let n = raw.len();
    let start: usize = if n >= 1 && raw[0] == 43 {
        1
    } else {
        0
    };
    let ghost digits = spec_digits_part(raw@);
    proof {
        assert(digits =~= raw@.subrange(start as int, n as int));
    }
    if n == start {
        return None;
    }
    let mut value: u64 = 0;
    let mut i: usize = start;
    while i < n
        invariant
            start <= i <= n,
            n == raw@.len(),
            digits == spec_digits_part(raw@),
            digits =~= raw@.subrange(start as int, n as int),
            spec_all_digits(digits.take(i - start)),
            value == spec_digits_value(digits.take(i - start)),
        decreases n - i,
    {
        let b = raw[i];
        proof {
            assert(digits[i - start] == raw@[i as int]);
        }
        if !(48 <= b && b <= 57) {
            assert(!spec_all_digits(digits));
            return None;
        }
        let d = (b - 48) as u64;
        proof {
            assert(digits.take(i - start + 1).drop_last() =~= digits.take(i - start));
            assert(digits.take(i - start + 1).last() == digits[i - start]);
        }
        if value > (u64::MAX - d) / 10 {
            proof {
                let lim = (u64::MAX - d) as int;
                assert(lim == lim / 10 * 10 + lim % 10) by (nonlinear_arith);
                assert(0 <= lim % 10 < 10) by (nonlinear_arith)
                    requires
                        lim >= 0,
                ;
                assert(value * 10 + d > u64::MAX);
                assert(spec_digits_value(digits.take(i - start + 1)) > u64::MAX);
                if spec_all_digits(digits) {
                    lemma_digits_value_prefix(digits, i - start + 1);
                }
            }
            return None;
        }
        value = value * 10 + d;
        i = i + 1;
    }
    proof {
        assert(digits.take(n - start) =~= digits);
    }
    Some(value)
}

/// The outcome of the whole content-length probe, decided from the
/// response's status and its raw `Content-Length` header, if any.
///
/// A non-success status fails with that status; a success response
/// without a readable decimal length fails with
/// `ContentLengthUnavailable`; otherwise the length is returned.
pub fn probe_outcome(status: u16, header: Option<&[u8]>) -> (r: Result<u64, DownloadError>)
    ensures
        !spec_status_is_success(status) ==> r == Err::<u64, DownloadError>(
            DownloadError::HttpStatus(status),
        ),
        spec_status_is_success(status) ==> match header {
            Some(h) => match spec_parse_content_length(h@) {
                Some(len) => r == Ok::<u64, DownloadError>(len),
                None => r == Err::<u64, DownloadError>(DownloadError::ContentLengthUnavailable),
            },
            None => r == Err::<u64, DownloadError>(DownloadError::ContentLengthUnavailable),
        },
{
    if !crate::transfer::status_is_success(status) {
        return Err(DownloadError::HttpStatus(status));
    }
    match header {
        Some(h) => match parse_content_length(h) {
            Some(len) => Ok(len),
            None => Err(DownloadError::ContentLengthUnavailable),
        },
        None => Err(DownloadError::ContentLengthUnavailable),
    }
}

} // verus!
