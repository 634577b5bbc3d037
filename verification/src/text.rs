//! Character-level utilities: trimming, string equality, and digit runs.
//!
//! The document model presents every piece of page text as a trimmed string,
//! and both the totals counters and the embedded-script timestamp are decoded
//! from contiguous digit runs, so these helpers carry exact contracts.

use vstd::prelude::*;

verus! {

/// Whitespace as this library trims it: space, tab, line feed, form feed,
/// carriage return.
pub open spec fn is_space(c: char) -> bool {
    c == ' ' || c == '\t' || c == '\n' || c == '\u{000C}' || c == '\r'
}

/// The string with leading and trailing whitespace removed.
pub open spec fn trim_spec(s: Seq<char>) -> Seq<char>
    decreases s.len(),
{
    if s.len() == 0 {
        s
    } else if is_space(s[0]) {
        trim_spec(s.drop_first())
    } else if is_space(s[s.len() - 1]) {
        trim_spec(s.drop_last())
    } else {
        s
    }
}

proof fn lemma_trim_subrange(s: Seq<char>, a: int, b: int)
    requires
        0 <= a <= b <= s.len(),
        forall|i: int| 0 <= i < a ==> is_space(s[i]),
        forall|i: int| b <= i < s.len() ==> is_space(s[i]),
        a == b || (!is_space(s[a]) && !is_space(s[b - 1])),
    ensures
        trim_spec(s) == s.subrange(a, b),
    decreases s.len(),
{
    if s.len() == 0 {
        assert(trim_spec(s) =~= s.subrange(a, b));
    } else if is_space(s[0]) {
        let t = s.drop_first();
        if a == b {
            lemma_trim_subrange(t, 0, 0);
            assert(trim_spec(s) =~= s.subrange(a, b));
        } else {
            assert(a >= 1);
            lemma_trim_subrange(t, a - 1, b - 1);
            assert(t.subrange(a - 1, b - 1) =~= s.subrange(a, b));
        }
    } else if is_space(s[s.len() - 1]) {
        let t = s.drop_last();
        if a == b {
            assert(is_space(s[0]));
            assert(false);
        } else {
            assert(b < s.len());
            lemma_trim_subrange(t, a, b);
            assert(t.subrange(a, b) =~= s.subrange(a, b));
        }
    } else {
        if a == b {
            assert(is_space(s[0]));
            assert(false);
        } else {
            assert(a == 0);
            assert(b == s.len());
            assert(trim_spec(s) =~= s.subrange(a, b));
        }
    }
}

fn space(c: char) -> (b: bool)
    ensures
        b == is_space(c),
{
    c == ' ' || c == '\t' || c == '\n' || c == '\u{000C}' || c == '\r'
}

/// Remove leading and trailing whitespace.
pub fn trim(s: &str) -> (r: String)
    ensures
        r@ == trim_spec(s@),
{
    let n = s.unicode_len();
    let mut a: usize = 0;
    while a < n && space(s.get_char(a))
        invariant
            0 <= a <= n,
            n == s@.len(),
            forall|i: int| 0 <= i < a ==> is_space(s@[i]),
        decreases n - a,
    {
        a = a + 1;
    }
    let mut b: usize = n;
    while b > a && space(s.get_char(b - 1))
        invariant
            a <= b <= n,
            n == s@.len(),
            forall|i: int| 0 <= i < a ==> is_space(s@[i]),
            forall|i: int| b <= i < n ==> is_space(s@[i]),
            a < n ==> !is_space(s@[a as int]),
        decreases b,
    {
        b = b - 1;
    }
    proof {
        lemma_trim_subrange(s@, a as int, b as int);
    }
    let t = s.substring_char(a, b);
    String::from_str(t)
}

/// Character-for-character string equality.
pub fn str_eq(x: &str, y: &str) -> (r: bool)
    ensures
        r == (x@ == y@),
{
    let n = x.unicode_len();
    if n != y.unicode_len() {
        proof {
            assert(x@.len() != y@.len());
        }
        return false;
    }
    let mut i: usize = 0;
    while i < n
        invariant
            0 <= i <= n,
            n == x@.len(),
            n == y@.len(),
            forall|j: int| 0 <= j < i ==> x@[j] == y@[j],
        decreases n - i,
    {
        if x.get_char(i) != y.get_char(i) {
            proof {
                assert(x@[i as int] != y@[i as int]);
            }
            return false;
        }
        i = i + 1;
    }
    proof {
        assert(x@ =~= y@);
    }
    true
}

/// The characters of a string as a vector.
pub fn chars_of(s: &str) -> (r: Vec<char>)
    ensures
        r@ == s@,
{
    let n = s.unicode_len();
    let mut v: Vec<char> = Vec::new();
    let mut i: usize = 0;
    while i < n
        invariant
            0 <= i <= n,
            n == s@.len(),
            v@ == s@.subrange(0, i as int),
        decreases n - i,
    {
        v.push(s.get_char(i));
        proof {
            assert(v@ =~= s@.subrange(0, i + 1));
        }
        i = i + 1;
    }
    proof {
        assert(s@.subrange(0, n as int) =~= s@);
    }
    v
}

/// A decimal digit.
pub open spec fn is_digit(c: char) -> bool {
    48 <= c as u32 && c as u32 <= 57
}

/// The numeric value of a decimal digit.
pub open spec fn digit_val(c: char) -> nat {
    (c as u32 - 48) as nat
}

/// The base-10 value of a digit string, most significant digit first.
pub open spec fn seq_val(s: Seq<char>) -> nat
    decreases s.len(),
{
    if s.len() == 0 {
        0
    } else {
        seq_val(s.drop_last()) * 10 + digit_val(s.last())
    }
}

/// The value of a digit string is at least the value of any of its prefixes.
pub proof fn lemma_seq_val_prefix(s: Seq<char>, k: int)
    requires
        0 <= k <= s.len(),
    ensures
        seq_val(s.take(k)) <= seq_val(s),
    decreases s.len() - k,
{
    if k == s.len() {
        assert(s.take(k) =~= s);
    } else {
        assert(s.take(k + 1).drop_last() =~= s.take(k));
        assert(s.take(k + 1).last() == s[k]);
        assert(seq_val(s.take(k)) <= seq_val(s.take(k)) * 10 + digit_val(s[k]));
        lemma_seq_val_prefix(s, k + 1);
    }
}

/// The end of the digit run starting at `i`: the first position at or after
/// `i` holding no digit.
pub open spec fn digit_run_end(s: Seq<char>, i: int) -> int
    decreases s.len() - i,
    when 0 <= i <= s.len()
{
    if i >= s.len() {
        i
    } else if is_digit(s[i]) {
        digit_run_end(s, i + 1)
    } else {
        i
    }
}

pub proof fn lemma_digit_run(s: Seq<char>, i: int)
    requires
        0 <= i <= s.len(),
    ensures
        i <= digit_run_end(s, i) <= s.len(),
        forall|j: int| i <= j < digit_run_end(s, i) ==> is_digit(s[j]),
        digit_run_end(s, i) < s.len() ==> !is_digit(s[digit_run_end(s, i)]),
    decreases s.len() - i,
{
    if i < s.len() && is_digit(s[i]) {
        lemma_digit_run(s, i + 1);
    }
}

fn digit(c: char) -> (b: bool)
    ensures
        b == is_digit(c),
{
    let x = c as u32;
    48 <= x && x <= 57
}

/// Scan the digit run beginning at `from`.
pub fn scan_digit_run(v: &Vec<char>, from: usize) -> (e: usize)
    requires
        from <= v@.len(),
    ensures
        e as int == digit_run_end(v@, from as int),
        from <= e <= v@.len(),
{
    proof {
        lemma_digit_run(v@, from as int);
    }
    let n = v.len();
    let mut j = from;
    while j < n && digit(v[j])
        invariant
            from <= j <= n,
            n == v@.len(),
            forall|k: int| from <= k < j ==> is_digit(v@[k]),
            digit_run_end(v@, from as int) == digit_run_end(v@, j as int),
        decreases n - j,
    {
        j = j + 1;
    }
    j
}

/// The value of the digit run `v[from..to)`, unless it exceeds `max`.
pub fn digits_value(v: &Vec<char>, from: usize, to: usize, max: u64) -> (r: Option<u64>)
    requires
        from <= to <= v@.len(),
        forall|j: int| from <= j < to ==> is_digit(v@[j]),
    ensures
        match r {
            Some(x) => x as nat == seq_val(v@.subrange(from as int, to as int)) && x <= max,
            None => seq_val(v@.subrange(from as int, to as int)) > max,
        },
{
    let mut acc: u64 = 0;
    let mut j = from;
    while j < to
        invariant
            from <= j <= to <= v@.len(),
            forall|k: int| from <= k < to ==> is_digit(v@[k]),
            acc as nat == seq_val(v@.subrange(from as int, j as int)),
            acc <= max,
        decreases to - j,
    {
        let c = v[j];
        let x = c as u32;
        let d: u64 = (x - 48) as u64;
        let next: u128 = (acc as u128) * 10 + (d as u128);
        proof {
            assert(v@.subrange(from as int, j + 1).drop_last() =~= v@.subrange(
                from as int,
                j as int,
            ));
            assert(v@.subrange(from as int, j + 1).last() == v@[j as int]);
        }
        if next > max as u128 {
            proof {
                let whole = v@.subrange(from as int, to as int);
                assert(whole.take(j + 1 - from) =~= v@.subrange(from as int, j + 1));
                lemma_seq_val_prefix(whole, j + 1 - from);
            }
            return None;
        }
        acc = next as u64;
        j = j + 1;
    }
    Some(acc)
}

/// The value of the leading digit run of `s`, where one exists and fits in
/// `i32`; totals texts such as a count followed by a caption are read this
/// way, the trailing text discarded.
pub open spec fn leading_count(s: Seq<char>) -> Option<int> {
    let e = digit_run_end(s, 0);
    if e == 0 {
        None
    } else if seq_val(s.take(e)) > i32::MAX {
        None
    } else {
        Some(seq_val(s.take(e)) as int)
    }
}

/// The value of `s` read as a plain base-10 integer: all of `s` must be
/// digits, at least one, and the value must fit in `i32`.
pub open spec fn plain_count(s: Seq<char>) -> Option<int> {
    let e = digit_run_end(s, 0);
    if s.len() == 0 || e != s.len() {
        None
    } else if seq_val(s) > i32::MAX {
        None
    } else {
        Some(seq_val(s) as int)
    }
}

/// Read the leading digit run of `text` as an `i32`.
pub fn parse_leading_count(text: &str) -> (r: Option<i32>)
    ensures
        match r {
            Some(x) => leading_count(text@) == Some(x as int),
            None => leading_count(text@) is None,
        },
{
    let v = chars_of(text);
    let e = scan_digit_run(&v, 0);
    if e == 0 {
        return None;
    }
    proof {
        lemma_digit_run(v@, 0);
    }
    match digits_value(&v, 0, e, i32::MAX as u64) {
        Some(x) => {
            proof {
                assert(v@.subrange(0, e as int) =~= v@.take(e as int));
            }
            Some(x as i32)
        },
        None => {
            proof {
                assert(v@.subrange(0, e as int) =~= v@.take(e as int));
            }
            None
        },
    }
}

/// Read the whole of `text` as a plain base-10 `i32`.
pub fn parse_plain_count(text: &str) -> (r: Option<i32>)
    ensures
        match r {
            Some(x) => plain_count(text@) == Some(x as int),
            None => plain_count(text@) is None,
        },
{
    let v = chars_of(text);
    let e = scan_digit_run(&v, 0);
    if v.len() == 0 || e != v.len() {
        return None;
    }
    proof {
        lemma_digit_run(v@, 0);
    }
    match digits_value(&v, 0, e, i32::MAX as u64) {
        Some(x) => {
            proof {
                assert(v@.subrange(0, e as int) =~= v@);
            }
            Some(x as i32)
        },
        None => {
            proof {
                assert(v@.subrange(0, e as int) =~= v@);
            }
            None
        },
    }
}

/// A totals text made of a digit run followed by anything that is not a
/// digit is read exactly as the run alone: the trailing text never changes
/// the count.
pub proof fn lemma_leading_count_ignores_trail(run: Seq<char>, trail: Seq<char>)
    requires
        run.len() > 0,
        forall|i: int| 0 <= i < run.len() ==> is_digit(run[i]),
        trail.len() > 0 ==> !is_digit(trail[0]),
    ensures
        leading_count(run + trail) == leading_count(run),
{
    let s = run + trail;
    lemma_digit_run_concat(run, trail);
    assert(s.take(run.len() as int) =~= run);
    lemma_digit_run(run, 0);
    assert(run.take(digit_run_end(run, 0)) =~= run);
}

proof fn lemma_digit_run_concat(run: Seq<char>, trail: Seq<char>)
    requires
        forall|i: int| 0 <= i < run.len() ==> is_digit(run[i]),
        trail.len() > 0 ==> !is_digit(trail[0]),
    ensures
        digit_run_end(run + trail, 0) == run.len(),
        digit_run_end(run, 0) == run.len(),
{
    let s = run + trail;
    lemma_digit_run(s, 0);
    let e = digit_run_end(s, 0);
    lemma_digit_run(run, 0);
    if e < run.len() {
        assert(is_digit(s[e]));
        assert(false);
    }
    if e > run.len() {
        assert(trail.len() > 0);
        assert(s[run.len() as int] == trail[0]);
        assert(is_digit(trail[0]));
        assert(false);
    }
    if digit_run_end(run, 0) < run.len() {
        assert(false);
    }
}

} // verus!
