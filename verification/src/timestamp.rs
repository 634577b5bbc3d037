//! Decoding the epoch timestamp embedded in an inline script fragment.
//!
//! The achievements page carries each date as a client-side formatting call
//! of the shape `ldst_strftime(<digits>, 'YMD')`. The decoder finds the
//! first such call and reads its digits as base-10 epoch seconds, UTC.

use vstd::prelude::*;
use crate::model::FetchError;
use crate::text::{digit_run_end, digits_value, is_digit, lemma_digit_run, scan_digit_run, seq_val,
    chars_of};

verus! {

/// The head of the pattern: the call opening, up to its first argument.
pub open spec fn call_pat() -> Seq<char> {
    seq!['l', 'd', 's', 't', '_', 's', 't', 'r', 'f', 't', 'i', 'm', 'e', '(']
}

/// The tail of the pattern: what must follow the digits.
pub open spec fn tail_pat() -> Seq<char> {
    seq![',', ' ', '\'', 'Y', 'M', 'D', '\'', ')']
}

/// The literal `p` occurs in `s` at position `i`.
pub open spec fn lit_at(s: Seq<char>, i: int, p: Seq<char>) -> bool {
    0 <= i && i + p.len() <= s.len() && s.subrange(i, i + p.len()) == p
}

/// A full call occurs at position `i`: the head, at least one digit, and
/// the tail right after the digit run.
pub open spec fn match_at(s: Seq<char>, i: int) -> bool {
    lit_at(s, i, call_pat()) && {
        let d0 = i + call_pat().len();
        let d1 = digit_run_end(s, d0);
        d1 > d0 && lit_at(s, d1, tail_pat())
    }
}

/// The value of the digits of the call at position `i`.
pub open spec fn match_value(s: Seq<char>, i: int) -> nat {
    let d0 = i + call_pat().len();
    seq_val(s.subrange(d0, digit_run_end(s, d0)))
}

/// Some call occurs in `s`.
pub open spec fn has_match(s: Seq<char>) -> bool {
    exists|i: int| match_at(s, i)
}

/// The position of the first call at or after `i`, or the length of `s`
/// where none follows.
pub open spec fn first_match_from(s: Seq<char>, i: int) -> int
    decreases s.len() - i,
    when 0 <= i <= s.len()
{
    if i >= s.len() {
        i
    } else if match_at(s, i) {
        i
    } else {
        first_match_from(s, i + 1)
    }
}

/// What decoding a script text yields: the value of the first embedded
/// call's digits, where a call exists and its value is a representable
/// instant; otherwise the timestamp failure.
pub open spec fn spec_decode(s: Seq<char>) -> Result<i64, FetchError> {
    if !has_match(s) {
        Err(FetchError::TimestampParse)
    } else {
        let v = match_value(s, first_match_from(s, 0));
        if v > i64::MAX {
            Err(FetchError::TimestampParse)
        } else {
            Ok(v as i64)
        }
    }
}

fn lit_exec(v: &Vec<char>, i: usize, p: &Vec<char>) -> (b: bool)
    ensures
        b == lit_at(v@, i as int, p@),
{
    let n = v.len();
    let m = p.len();
    if i > n || m > n - i {
        return false;
    }
    let mut j: usize = 0;
    while j < m
        invariant
            0 <= j <= m,
            i + m <= n,
            n == v@.len(),
            m == p@.len(),
            forall|k: int| 0 <= k < j ==> v@[i + k] == p@[k],
        decreases m - j,
    {
        if v[i + j] != p[j] {
            proof {
                assert(v@.subrange(i as int, i + m) != p@) by {
                    assert(v@.subrange(i as int, i + m)[j as int] == v@[i + j]);
                }
            }
            return false;
        }
        j = j + 1;
    }
    proof {
        assert(v@.subrange(i as int, i + m) =~= p@);
    }
    true
}

/// Decode the first embedded `ldst_strftime(<digits>, 'YMD')` call of a
/// script text as epoch seconds.
pub fn decode_script_timestamp(script: &str) -> (r: Result<i64, FetchError>)
    ensures
        r == spec_decode(script@),
{
    let v = chars_of(script);
    let n = v.len();
    let pat: Vec<char> = vec!['l', 'd', 's', 't', '_', 's', 't', 'r', 'f', 't', 'i', 'm', 'e', '('];
    let tail: Vec<char> = vec![',', ' ', '\'', 'Y', 'M', 'D', '\'', ')'];
    proof {
        assert(pat@ =~= call_pat());
        assert(tail@ =~= tail_pat());
    }
    let mut i: usize = 0;
    while i < n
        invariant
            0 <= i <= n,
            n == v@.len(),
            v@ == script@,
            pat@ == call_pat(),
            tail@ == tail_pat(),
            forall|k: int| 0 <= k < i ==> !match_at(v@, k),
            first_match_from(v@, 0) == first_match_from(v@, i as int),
        decreases n - i,
    {
        if lit_exec(&v, i, &pat) {
            let d0 = i + pat.len();
            let d1 = scan_digit_run(&v, d0);
            if d1 > d0 && lit_exec(&v, d1, &tail) {
                proof {
                    assert(match_at(v@, i as int));
                    assert(first_match_from(v@, i as int) == i as int);
                    lemma_digit_run(v@, d0 as int);
                }
                match digits_value(&v, d0, d1, 9223372036854775807u64) {
                    Some(x) => {
                        return Ok(x as i64);
                    },
                    None => {
                        return Err(FetchError::TimestampParse);
                    },
                }
            }
        }
        proof {
            assert(!match_at(v@, i as int));
        }
        i = i + 1;
    }
    proof {
        assert(forall|k: int| !match_at(v@, k)) by {
            assert(forall|k: int| #[trigger] match_at(v@, k) ==> 0 <= k && k + call_pat().len()
                <= v@.len());
        }
        assert(!has_match(v@));
    }
    Err(FetchError::TimestampParse)
}

} // verus!
