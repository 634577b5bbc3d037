//! A flat interchange record for the avatar, and its parser.
//!
//! The record is a sequence of fields: each string field is one element,
//! each number is its decimal form, each list is preceded by its length,
//! and every section is introduced by its field name. Parsing a record
//! written here yields the record written, field for field.

use vstd::prelude::*;
use crate::model::{Achievement, AchievementV, Achievements, AchievementsV, AvatarV, FF14Avatar, IconV, IconsV, Job, JobV,
    Minion, Minions, Mount, Mounts};
use crate::text::{chars_of, digit_run_end, digit_val, digits_value, is_digit, lemma_digit_run,
    scan_digit_run, seq_val, str_eq};

verus! {

/// The character for a decimal digit value.
pub open spec fn digit_char(d: int) -> char {
    if d == 0 {
        '0'
    } else if d == 1 {
        '1'
    } else if d == 2 {
        '2'
    } else if d == 3 {
        '3'
    } else if d == 4 {
        '4'
    } else if d == 5 {
        '5'
    } else if d == 6 {
        '6'
    } else if d == 7 {
        '7'
    } else if d == 8 {
        '8'
    } else {
        '9'
    }
}

/// The decimal form of a natural number, most significant digit first.
pub open spec fn dec_nat(n: nat) -> Seq<char>
    decreases n,
{
    if n < 10 {
        seq![digit_char(n as int)]
    } else {
        dec_nat(n / 10).push(digit_char((n % 10) as int))
    }
}

/// The decimal form of an integer: a minus sign before the magnitude where
/// negative.
pub open spec fn dec_int(x: int) -> Seq<char> {
    if x < 0 {
        seq!['-'] + dec_nat((-x) as nat)
    } else {
        dec_nat(x as nat)
    }
}

pub proof fn lemma_dec_nat_digits(n: nat)
    ensures
        dec_nat(n).len() > 0,
        forall|i: int| 0 <= i < dec_nat(n).len() ==> is_digit(#[trigger] dec_nat(n)[i]),
    decreases n,
{
    if n >= 10 {
        lemma_dec_nat_digits(n / 10);
        assert forall|i: int| 0 <= i < dec_nat(n).len() implies is_digit(
            #[trigger] dec_nat(n)[i],
        ) by {
            if i < dec_nat(n).len() - 1 {
                assert(dec_nat(n)[i] == dec_nat(n / 10)[i]);
            }
        }
    }
}

proof fn lemma_digit_char_val(d: int)
    requires
        0 <= d <= 9,
    ensures
        digit_val(digit_char(d)) == d,
        is_digit(digit_char(d)),
{
}

pub proof fn lemma_dec_nat_val(n: nat)
    ensures
        seq_val(dec_nat(n)) == n,
    decreases n,
{
    if n < 10 {
        lemma_digit_char_val(n as int);
        assert(seq_val(Seq::<char>::empty()) == 0);
        assert(dec_nat(n).drop_last() =~= Seq::<char>::empty());
        assert(dec_nat(n).last() == digit_char(n as int));
    } else {
        lemma_dec_nat_val(n / 10);
        lemma_digit_char_val((n % 10) as int);
        assert(dec_nat(n).drop_last() =~= dec_nat(n / 10));
        assert(dec_nat(n).last() == digit_char((n % 10) as int));
        assert(seq_val(dec_nat(n)) == (n / 10) * 10 + n % 10);
        assert((n / 10) * 10 + n % 10 == n) by (nonlinear_arith);
    }
}

/// The whole of `s` read as a base-10 `u64`: all digits, at least one.
pub open spec fn spec_parse_u64(s: Seq<char>) -> Option<u64> {
    if s.len() > 0 && digit_run_end(s, 0) == s.len() && seq_val(s) <= u64::MAX {
        Some(seq_val(s) as u64)
    } else {
        None
    }
}

/// The whole of `s` read as a base-10 `i64`, an optional minus sign first.
pub open spec fn spec_parse_i64(s: Seq<char>) -> Option<i64> {
    if s.len() > 0 && s[0] == '-' {
        let t = s.drop_first();
        if t.len() > 0 && digit_run_end(t, 0) == t.len() && seq_val(t) <= 0x8000000000000000 {
            Some((0 - seq_val(t)) as i64)
        } else {
            None
        }
    } else if s.len() > 0 && digit_run_end(s, 0) == s.len() && seq_val(s) <= i64::MAX {
        Some(seq_val(s) as i64)
    } else {
        None
    }
}

proof fn lemma_run_all(s: Seq<char>)
    ensures
        digit_run_end(s, 0) == s.len() <==> (forall|i: int|
            0 <= i < s.len() ==> is_digit(#[trigger] s[i])),
{
    lemma_digit_run(s, 0);
}

/// Read the whole of `text` as a base-10 `u64`.
pub fn parse_u64(text: &str) -> (r: Option<u64>)
    ensures
        r == spec_parse_u64(text@),
{
    let v = chars_of(text);
    let e = scan_digit_run(&v, 0);
    proof {
        lemma_digit_run(v@, 0);
        lemma_run_all(v@);
    }
    if v.len() == 0 || e != v.len() {
        return None;
    }
    match digits_value(&v, 0, e, u64::MAX) {
        Some(x) => {
            proof {
                assert(v@.subrange(0, e as int) =~= v@);
            }
            Some(x)
        },
        None => {
            proof {
                assert(v@.subrange(0, e as int) =~= v@);
            }
            None
        },
    }
}

/// Read the whole of `text` as a base-10 `i64`, an optional minus sign
/// first.
pub fn parse_i64(text: &str) -> (r: Option<i64>)
    ensures
        r == spec_parse_i64(text@),
{
    let v = chars_of(text);
    let n = v.len();
    if n == 0 {
        return None;
    }
    if v[0] == '-' {
        let ghost t = v@.drop_first();
        let e = scan_digit_run(&v, 1);
        proof {
            lemma_digit_run(v@, 1);
            lemma_digit_run(t, 0);
            lemma_run_all(t);
            assert forall|i: int| 0 <= i < t.len() implies t[i] == v@[i + 1] by {}
        }
        if n == 1 || e != n {
            proof {
                if n > 1 && e != n {
                    let re = digit_run_end(v@, 1);
                    if re < n {
                        assert(!is_digit(v@[re]));
                        assert(digit_run_end(t, 0) != t.len()) by {
                            if digit_run_end(t, 0) == t.len() {
                                assert(is_digit(t[re - 1]));
                            }
                        }
                    }
                }
            }
            return None;
        }
        proof {
            assert(digit_run_end(t, 0) == t.len()) by {
                lemma_run_all(t);
            }
        }
        match digits_value(&v, 1, e, 0x8000000000000000u64) {
            Some(x) => {
                proof {
                    assert(v@.subrange(1, e as int) =~= t);
                }
                if x == 0x8000000000000000u64 {
                    Some(i64::MIN)
                } else {
                    Some(-(x as i64))
                }
            },
            None => {
                proof {
                    assert(v@.subrange(1, e as int) =~= t);
                }
                None
            },
        }
    } else {
        let e = scan_digit_run(&v, 0);
        proof {
            lemma_digit_run(v@, 0);
        }
        if e != n {
            return None;
        }
        match digits_value(&v, 0, e, 0x7fffffffffffffffu64) {
            Some(x) => {
                proof {
                    assert(v@.subrange(0, e as int) =~= v@);
                }
                Some(x as i64)
            },
            None => {
                proof {
                    assert(v@.subrange(0, e as int) =~= v@);
                }
                None
            },
        }
    }
}

/// Relies on std's `String::push`: appends exactly one character.
#[verifier::external_body]
fn push_char(s: &mut String, c: char)
    ensures
        final (s)@ == old(s)@.push(c),
{
    s.push(c);
}

fn digit_char_exec(d: u64) -> (c: char)
    requires
        d <= 9,
    ensures
        c == digit_char(d as int),
{
    if d == 0 {
        '0'
    } else if d == 1 {
        '1'
    } else if d == 2 {
        '2'
    } else if d == 3 {
        '3'
    } else if d == 4 {
        '4'
    } else if d == 5 {
        '5'
    } else if d == 6 {
        '6'
    } else if d == 7 {
        '7'
    } else if d == 8 {
        '8'
    } else {
        '9'
    }
}

/// The decimal form of a `u64`.
pub fn u64_to_string(x: u64) -> (r: String)
    ensures
        r@ == dec_nat(x as nat),
    decreases x,
{
    if x < 10 {
        let mut s = String::new();
        push_char(&mut s, digit_char_exec(x));
        proof {
            assert(s@ =~= seq![digit_char(x as int)]);
        }
        s
    } else {
        let mut s = u64_to_string(x / 10);
        push_char(&mut s, digit_char_exec(x % 10));
        s
    }
}

/// The decimal form of an `i64`, a minus sign first where negative.
pub fn i64_to_string(x: i64) -> (r: String)
    ensures
        r@ == dec_int(x as int),
{
    if x >= 0 {
        u64_to_string(x as u64)
    } else {
        let mag: u64 = if x == i64::MIN {
            0x8000000000000000u64
        } else {
            (-x) as u64
        };
        let mut s = String::from_str("-");
        let ds = u64_to_string(mag);
        s.append(ds.as_str());
        proof {
            reveal_strlit("-");
            assert(s@ =~= seq!['-'] + dec_nat(mag as nat));
        }
        s
    }
}

/// Reading back the decimal form of an integer gives the integer: the
/// numeric fields of a record survive the round trip.
pub proof fn lemma_parse_dec_int(x: i64)
    ensures
        spec_parse_i64(dec_int(x as int)) == Some(x),
{
    if x < 0 {
        let m = (-(x as int)) as nat;
        let s = seq!['-'] + dec_nat(m);
        lemma_dec_nat_digits(m);
        lemma_dec_nat_val(m);
        assert(s[0] == '-');
        assert(s.drop_first() =~= dec_nat(m));
        lemma_run_all(dec_nat(m));
        assert(spec_parse_i64(s) == Some((0 - m as int) as i64));
    } else {
        let s = dec_nat(x as nat);
        lemma_dec_nat_digits(x as nat);
        lemma_dec_nat_val(x as nat);
        lemma_run_all(s);
        assert(!is_digit('-'));
        assert(s[0] != '-');
    }
}

/// Reading back the decimal form of a `u64` gives it: the length fields of
/// a record survive the round trip.
pub proof fn lemma_parse_dec_u64(x: u64)
    ensures
        spec_parse_u64(dec_nat(x as nat)) == Some(x),
{
    lemma_dec_nat_digits(x as nat);
    lemma_dec_nat_val(x as nat);
    lemma_run_all(dec_nat(x as nat));
}

/// The model of a field list.
pub open spec fn fields_view(fs: Seq<String>) -> Seq<Seq<char>> {
    fs.map_values(|s: String| s@)
}

/// The fields of one job entry.
pub open spec fn job_fields(j: JobV) -> Seq<Seq<char>> {
    seq![j.name, j.level, j.image_url]
}

/// The fields of a job list, in order.
pub open spec fn jobs_fields(js: Seq<JobV>) -> Seq<Seq<char>>
    decreases js.len(),
{
    if js.len() == 0 {
        Seq::empty()
    } else {
        job_fields(js[0]) + jobs_fields(js.drop_first())
    }
}

/// The fields of one achievement entry.
pub open spec fn ach_fields(a: AchievementV) -> Seq<Seq<char>> {
    seq![a.title, dec_int(a.date), a.image_url]
}

/// The fields of an achievement list, in order.
pub open spec fn achs_fields(items: Seq<AchievementV>) -> Seq<Seq<char>>
    decreases items.len(),
{
    if items.len() == 0 {
        Seq::empty()
    } else {
        ach_fields(items[0]) + achs_fields(items.drop_first())
    }
}

/// The fields of one minion or mount entry.
pub open spec fn icon_fields(m: IconV) -> Seq<Seq<char>> {
    seq![m.name, m.image_url]
}

/// The fields of a minion or mount list, in order.
pub open spec fn icons_fields(items: Seq<IconV>) -> Seq<Seq<char>>
    decreases items.len(),
{
    if items.len() == 0 {
        Seq::empty()
    } else {
        icon_fields(items[0]) + icons_fields(items.drop_first())
    }
}

/// The record of an avatar: every scalar field under its name, every list
/// preceded by its length, achievements, minions and mounts each under
/// their name with their reported count.
pub open spec fn record_of(a: AvatarV) -> Seq<Seq<char>> {
    seq![
        "id"@,
        a.id,
        "name"@,
        a.name,
        "image_url"@,
        a.image_url,
        "image_hash"@,
        a.image_hash,
        "fetched_at"@,
        dec_int(a.fetched_at),
        "jobs"@,
        dec_nat(a.jobs.len()),
    ] + jobs_fields(a.jobs) + seq![
        "achievements"@,
        dec_int(a.achievements.count),
        dec_nat(a.achievements.items.len()),
    ] + achs_fields(a.achievements.items) + seq![
        "minions"@,
        dec_int(a.minions.count),
        dec_nat(a.minions.items.len()),
    ] + icons_fields(a.minions.items) + seq![
        "mounts"@,
        dec_int(a.mounts.count),
        dec_nat(a.mounts.items.len()),
    ] + icons_fields(a.mounts.items)
}

fn jobs_to_fields(js: &Vec<Job>, i: usize) -> (r: Vec<String>)
    requires
        i <= js@.len(),
    ensures
        fields_view(r@) == jobs_fields(js@.map_values(|j: Job| j@).skip(i as int)),
    decreases js@.len() - i,
{
    let ghost jv = js@.map_values(|j: Job| j@);
    if i == js.len() {
        let empty: Vec<String> = Vec::new();
        proof {
            assert(jv.skip(i as int) =~= Seq::<JobV>::empty());
            assert(fields_view(empty@) =~= Seq::<Seq<char>>::empty());
        }
        empty
    } else {
        let j = &js[i];
        let mut head: Vec<String> = Vec::new();
        head.push(j.name.clone());
        head.push(j.level.clone());
        head.push(j.image_url.clone());
        let mut rest = jobs_to_fields(js, i + 1);
        head.append(&mut rest);
        proof {
            assert(jv.skip(i as int)[0] == jv[i as int]);
            assert(jv.skip(i as int).drop_first() =~= jv.skip(i as int + 1));
            assert(fields_view(head@) =~= job_fields(jv[i as int]) + jobs_fields(
                jv.skip(i as int + 1),
            ));
        }
        head
    }
}

fn achs_to_fields(items: &Vec<Achievement>, i: usize) -> (r: Vec<String>)
    requires
        i <= items@.len(),
    ensures
        fields_view(r@) == achs_fields(items@.map_values(|a: Achievement| a@).skip(i as int)),
    decreases items@.len() - i,
{
    let ghost av = items@.map_values(|a: Achievement| a@);
    if i == items.len() {
        let empty: Vec<String> = Vec::new();
        proof {
            assert(av.skip(i as int) =~= Seq::<AchievementV>::empty());
            assert(fields_view(empty@) =~= Seq::<Seq<char>>::empty());
        }
        empty
    } else {
        let a = &items[i];
        let mut head: Vec<String> = Vec::new();
        head.push(a.title.clone());
        head.push(i64_to_string(a.date));
        head.push(a.image_url.clone());
        let mut rest = achs_to_fields(items, i + 1);
        head.append(&mut rest);
        proof {
            assert(av.skip(i as int)[0] == av[i as int]);
            assert(av.skip(i as int).drop_first() =~= av.skip(i as int + 1));
            assert(fields_view(head@) =~= ach_fields(av[i as int]) + achs_fields(
                av.skip(i as int + 1),
            ));
        }
        head
    }
}

fn minions_to_fields(items: &Vec<Minion>, i: usize) -> (r: Vec<String>)
    requires
        i <= items@.len(),
    ensures
        fields_view(r@) == icons_fields(items@.map_values(|m: Minion| m@).skip(i as int)),
    decreases items@.len() - i,
{
    let ghost mv = items@.map_values(|m: Minion| m@);
    if i == items.len() {
        let empty: Vec<String> = Vec::new();
        proof {
            assert(mv.skip(i as int) =~= Seq::<IconV>::empty());
            assert(fields_view(empty@) =~= Seq::<Seq<char>>::empty());
        }
        empty
    } else {
        let m = &items[i];
        let mut head: Vec<String> = Vec::new();
        head.push(m.name.clone());
        head.push(m.image_url.clone());
        let mut rest = minions_to_fields(items, i + 1);
        head.append(&mut rest);
        proof {
            assert(mv.skip(i as int)[0] == mv[i as int]);
            assert(mv.skip(i as int).drop_first() =~= mv.skip(i as int + 1));
            assert(fields_view(head@) =~= icon_fields(mv[i as int]) + icons_fields(
                mv.skip(i as int + 1),
            ));
        }
        head
    }
}

fn mounts_to_fields(items: &Vec<Mount>, i: usize) -> (r: Vec<String>)
    requires
        i <= items@.len(),
    ensures
        fields_view(r@) == icons_fields(items@.map_values(|m: Mount| m@).skip(i as int)),
    decreases items@.len() - i,
{
    let ghost mv = items@.map_values(|m: Mount| m@);
    if i == items.len() {
        let empty: Vec<String> = Vec::new();
        proof {
            assert(mv.skip(i as int) =~= Seq::<IconV>::empty());
            assert(fields_view(empty@) =~= Seq::<Seq<char>>::empty());
        }
        empty
    } else {
        let m = &items[i];
        let mut head: Vec<String> = Vec::new();
        head.push(m.name.clone());
        head.push(m.image_url.clone());
        let mut rest = mounts_to_fields(items, i + 1);
        head.append(&mut rest);
        proof {
            assert(mv.skip(i as int)[0] == mv[i as int]);
            assert(mv.skip(i as int).drop_first() =~= mv.skip(i as int + 1));
            assert(fields_view(head@) =~= icon_fields(mv[i as int]) + icons_fields(
                mv.skip(i as int + 1),
            ));
        }
        head
    }
}

/// Write an avatar as its flat field record.
pub fn avatar_to_record(a: &FF14Avatar) -> (r: Vec<String>)
    ensures
        fields_view(r@) == record_of(a@),
{
    let mut out: Vec<String> = Vec::new();
    out.push(String::from_str("id"));
    out.push(a.id.clone());
    out.push(String::from_str("name"));
    out.push(a.name.clone());
    out.push(String::from_str("image_url"));
    out.push(a.image_url.clone());
    out.push(String::from_str("image_hash"));
    out.push(a.image_hash.clone());
    out.push(String::from_str("fetched_at"));
    out.push(i64_to_string(a.fetched_at));
    out.push(String::from_str("jobs"));
    out.push(u64_to_string(a.jobs.len() as u64));
    let ghost hdr = seq![
        "id"@,
        a@.id,
        "name"@,
        a@.name,
        "image_url"@,
        a@.image_url,
        "image_hash"@,
        a@.image_hash,
        "fetched_at"@,
        dec_int(a@.fetched_at),
        "jobs"@,
        dec_nat(a@.jobs.len()),
    ];
    proof {
        assert(fields_view(out@) =~= hdr);
    }
    let mut part = jobs_to_fields(&a.jobs, 0);
    let ghost p_jobs = fields_view(part@);
    let ghost o1 = fields_view(out@);
    out.append(&mut part);
    proof {
        assert(a@.jobs.skip(0) =~= a@.jobs);
        assert(fields_view(out@) =~= o1 + p_jobs);
    }
    let ghost acc1 = fields_view(out@);
    let mut part: Vec<String> = Vec::new();
    part.push(String::from_str("achievements"));
    part.push(i64_to_string(a.achievements.count as i64));
    part.push(u64_to_string(a.achievements.items.len() as u64));
    let ghost s_ach = seq![
        "achievements"@,
        dec_int(a@.achievements.count),
        dec_nat(a@.achievements.items.len()),
    ];
    proof {
        assert(fields_view(part@) =~= s_ach);
    }
    let ghost o2 = fields_view(out@);
    out.append(&mut part);
    proof {
        assert(fields_view(out@) =~= o2 + s_ach);
    }
    let mut part = achs_to_fields(&a.achievements.items, 0);
    let ghost p_achs = fields_view(part@);
    let ghost o3 = fields_view(out@);
    out.append(&mut part);
    proof {
        assert(a@.achievements.items.skip(0) =~= a@.achievements.items);
        assert(fields_view(out@) =~= o3 + p_achs);
    }
    let ghost acc2 = fields_view(out@);
    let mut part: Vec<String> = Vec::new();
    part.push(String::from_str("minions"));
    part.push(i64_to_string(a.minions.count as i64));
    part.push(u64_to_string(a.minions.items.len() as u64));
    let ghost s_mi = seq![
        "minions"@,
        dec_int(a@.minions.count),
        dec_nat(a@.minions.items.len()),
    ];
    proof {
        assert(fields_view(part@) =~= s_mi);
    }
    let ghost o4 = fields_view(out@);
    out.append(&mut part);
    proof {
        assert(fields_view(out@) =~= o4 + s_mi);
    }
    let mut part = minions_to_fields(&a.minions.items, 0);
    let ghost p_mi = fields_view(part@);
    let ghost o5 = fields_view(out@);
    out.append(&mut part);
    proof {
        assert(a@.minions.items.skip(0) =~= a@.minions.items);
        assert(fields_view(out@) =~= o5 + p_mi);
    }
    let ghost acc3 = fields_view(out@);
    let mut part: Vec<String> = Vec::new();
    part.push(String::from_str("mounts"));
    part.push(i64_to_string(a.mounts.count as i64));
    part.push(u64_to_string(a.mounts.items.len() as u64));
    let ghost s_mo = seq![
        "mounts"@,
        dec_int(a@.mounts.count),
        dec_nat(a@.mounts.items.len()),
    ];
    proof {
        assert(fields_view(part@) =~= s_mo);
    }
    let ghost o6 = fields_view(out@);
    out.append(&mut part);
    proof {
        assert(fields_view(out@) =~= o6 + s_mo);
    }
    let mut part = mounts_to_fields(&a.mounts.items, 0);
    let ghost p_mo = fields_view(part@);
    let ghost o7 = fields_view(out@);
    out.append(&mut part);
    proof {
        assert(a@.mounts.items.skip(0) =~= a@.mounts.items);
        assert(fields_view(out@) =~= o7 + p_mo);
        assert(fields_view(out@) =~= record_of(a@));
    }
    out
}

/// The jobs read from `k` entries of three fields each, starting at `i`.
pub open spec fn spec_parse_jobs(fs: Seq<Seq<char>>, i: int, k: nat) -> Option<Seq<JobV>>
    decreases k,
{
    if k == 0 {
        Some(Seq::empty())
    } else if 0 <= i && i + 3 <= fs.len() {
        let j = JobV { name: fs[i], level: fs[i + 1], image_url: fs[i + 2] };
        match spec_parse_jobs(fs, i + 3, (k - 1) as nat) {
            None => None,
            Some(rest) => Some(seq![j] + rest),
        }
    } else {
        None
    }
}

/// The achievements read from `k` entries of three fields each.
pub open spec fn spec_parse_achs(fs: Seq<Seq<char>>, i: int, k: nat) -> Option<Seq<AchievementV>>
    decreases k,
{
    if k == 0 {
        Some(Seq::empty())
    } else if 0 <= i && i + 3 <= fs.len() {
        match spec_parse_i64(fs[i + 1]) {
            None => None,
            Some(d) => {
                let a = AchievementV { title: fs[i], date: d as int, image_url: fs[i + 2] };
                match spec_parse_achs(fs, i + 3, (k - 1) as nat) {
                    None => None,
                    Some(rest) => Some(seq![a] + rest),
                }
            },
        }
    } else {
        None
    }
}

/// The icons read from `k` entries of two fields each.
pub open spec fn spec_parse_icons(fs: Seq<Seq<char>>, i: int, k: nat) -> Option<Seq<IconV>>
    decreases k,
{
    if k == 0 {
        Some(Seq::empty())
    } else if 0 <= i && i + 2 <= fs.len() {
        let m = IconV { name: fs[i], image_url: fs[i + 1] };
        match spec_parse_icons(fs, i + 2, (k - 1) as nat) {
            None => None,
            Some(rest) => Some(seq![m] + rest),
        }
    } else {
        None
    }
}

proof fn lemma_parse_jobs_overflow(fs: Seq<Seq<char>>, i: int, k: nat)
    requires
        0 <= i,
        k > 0,
        i + 3 * k > fs.len(),
    ensures
        spec_parse_jobs(fs, i, k) is None,
    decreases k,
{
    if i + 3 <= fs.len() && k > 1 {
        lemma_parse_jobs_overflow(fs, i + 3, (k - 1) as nat);
    }
}

proof fn lemma_parse_achs_overflow(fs: Seq<Seq<char>>, i: int, k: nat)
    requires
        0 <= i,
        k > 0,
        i + 3 * k > fs.len(),
    ensures
        spec_parse_achs(fs, i, k) is None,
    decreases k,
{
    if i + 3 <= fs.len() && k > 1 {
        lemma_parse_achs_overflow(fs, i + 3, (k - 1) as nat);
    }
}

proof fn lemma_parse_icons_overflow(fs: Seq<Seq<char>>, i: int, k: nat)
    requires
        0 <= i,
        k > 0,
        i + 2 * k > fs.len(),
    ensures
        spec_parse_icons(fs, i, k) is None,
    decreases k,
{
    if i + 2 <= fs.len() && k > 1 {
        lemma_parse_icons_overflow(fs, i + 2, (k - 1) as nat);
    }
}

/// The achievements section: its name, the reported count within `i32`,
/// the item tally, and the items; the second component is the position
/// after the section.
pub open spec fn spec_parse_ach_section(fs: Seq<Seq<char>>, i: int) -> Option<
    (AchievementsV, int),
> {
    if 0 <= i && i + 3 <= fs.len() && fs[i] == "achievements"@ {
        match (spec_parse_i64(fs[i + 1]), spec_parse_u64(fs[i + 2])) {
            (Some(c), Some(k)) => if -0x80000000 <= c <= 0x7fffffff {
                match spec_parse_achs(fs, i + 3, k as nat) {
                    None => None,
                    Some(items) => Some(
                        (AchievementsV { items, count: c as int }, i + 3 + 3 * (k as int)),
                    ),
                }
            } else {
                None
            },
            _ => None,
        }
    } else {
        None
    }
}

/// A minions or mounts section under the name `tag`, shaped as
/// [`spec_parse_ach_section`] with two-field items.
pub open spec fn spec_parse_icon_section(fs: Seq<Seq<char>>, i: int, tag: Seq<char>) -> Option<
    (IconsV, int),
> {
    if 0 <= i && i + 3 <= fs.len() && fs[i] == tag {
        match (spec_parse_i64(fs[i + 1]), spec_parse_u64(fs[i + 2])) {
            (Some(c), Some(k)) => if -0x80000000 <= c <= 0x7fffffff {
                match spec_parse_icons(fs, i + 3, k as nat) {
                    None => None,
                    Some(items) => Some(
                        (IconsV { items, count: c as int }, i + 3 + 2 * (k as int)),
                    ),
                }
            } else {
                None
            },
            _ => None,
        }
    } else {
        None
    }
}

/// The whole record: the five named scalar fields, then the jobs preceded
/// by their tally, then the three counted sections, with nothing left
/// over.
pub open spec fn spec_parse_record(fs: Seq<Seq<char>>) -> Option<AvatarV> {
    if fs.len() >= 12 && fs[0] == "id"@ && fs[2] == "name"@ && fs[4] == "image_url"@ && fs[6]
        == "image_hash"@ && fs[8] == "fetched_at"@ && fs[10] == "jobs"@ {
        match (spec_parse_i64(fs[9]), spec_parse_u64(fs[11])) {
            (Some(fat), Some(nj)) => match spec_parse_jobs(fs, 12, nj as nat) {
                None => None,
                Some(jobs) => match spec_parse_ach_section(fs, 12 + 3 * (nj as int)) {
                    None => None,
                    Some((ach, i2)) => match spec_parse_icon_section(fs, i2, "minions"@) {
                        None => None,
                        Some((mi, i3)) => match spec_parse_icon_section(fs, i3, "mounts"@) {
                            None => None,
                            Some((mo, i4)) => if i4 == fs.len() {
                                Some(
                                    AvatarV {
                                        id: fs[1],
                                        name: fs[3],
                                        image_url: fs[5],
                                        jobs,
                                        achievements: ach,
                                        minions: mi,
                                        mounts: mo,
                                        fetched_at: fat as int,
                                        image_hash: fs[7],
                                    },
                                )
                            } else {
                                None
                            },
                        },
                    },
                },
            },
            _ => None,
        }
    } else {
        None
    }
}

fn parse_jobs(fs: &Vec<String>, i: usize, k: usize) -> (r: Option<Vec<Job>>)
    requires
        i <= fs@.len(),
    ensures
        match r {
            Some(js) => spec_parse_jobs(fields_view(fs@), i as int, k as nat) == Some(
                js@.map_values(|j: Job| j@),
            ) && js@.len() == k && i + 3 * k <= fs@.len(),
            None => spec_parse_jobs(fields_view(fs@), i as int, k as nat) is None,
        },
    decreases k,
{
    if k == 0 {
        let empty: Vec<Job> = Vec::new();
        proof {
            assert(empty@.map_values(|j: Job| j@) =~= Seq::<JobV>::empty());
        }
        Some(empty)
    } else if fs.len() - i < 3 {
        None
    } else {
        let j = Job {
            name: fs[i].clone(),
            level: fs[i + 1].clone(),
            image_url: fs[i + 2].clone(),
        };
        match parse_jobs(fs, i + 3, k - 1) {
            None => None,
            Some(mut js) => {
                let ghost rest = js@.map_values(|x: Job| x@);
                js.insert(0, j);
                proof {
                    assert(js@.map_values(|x: Job| x@) =~= seq![j@] + rest);
                }
                Some(js)
            },
        }
    }
}

fn parse_achs(fs: &Vec<String>, i: usize, k: usize) -> (r: Option<Vec<Achievement>>)
    requires
        i <= fs@.len(),
    ensures
        match r {
            Some(items) => spec_parse_achs(fields_view(fs@), i as int, k as nat) == Some(
                items@.map_values(|a: Achievement| a@),
            ) && items@.len() == k && i + 3 * k <= fs@.len(),
            None => spec_parse_achs(fields_view(fs@), i as int, k as nat) is None,
        },
    decreases k,
{
    if k == 0 {
        let empty: Vec<Achievement> = Vec::new();
        proof {
            assert(empty@.map_values(|a: Achievement| a@) =~= Seq::<AchievementV>::empty());
        }
        Some(empty)
    } else if fs.len() - i < 3 {
        None
    } else {
        let d = match parse_i64(fs[i + 1].as_str()) {
            None => {
                return None;
            },
            Some(x) => x,
        };
        let a = Achievement {
            title: fs[i].clone(),
            date: d,
            image_url: fs[i + 2].clone(),
        };
        match parse_achs(fs, i + 3, k - 1) {
            None => None,
            Some(mut items) => {
                let ghost rest = items@.map_values(|x: Achievement| x@);
                items.insert(0, a);
                proof {
                    assert(items@.map_values(|x: Achievement| x@) =~= seq![a@] + rest);
                }
                Some(items)
            },
        }
    }
}

fn parse_minion_items(fs: &Vec<String>, i: usize, k: usize) -> (r: Option<Vec<Minion>>)
    requires
        i <= fs@.len(),
    ensures
        match r {
            Some(items) => spec_parse_icons(fields_view(fs@), i as int, k as nat) == Some(
                items@.map_values(|m: Minion| m@),
            ) && items@.len() == k && i + 2 * k <= fs@.len(),
            None => spec_parse_icons(fields_view(fs@), i as int, k as nat) is None,
        },
    decreases k,
{
    if k == 0 {
        let empty: Vec<Minion> = Vec::new();
        proof {
            assert(empty@.map_values(|m: Minion| m@) =~= Seq::<IconV>::empty());
        }
        Some(empty)
    } else if fs.len() - i < 2 {
        None
    } else {
        let m = Minion { name: fs[i].clone(), image_url: fs[i + 1].clone() };
        match parse_minion_items(fs, i + 2, k - 1) {
            None => None,
            Some(mut items) => {
                let ghost rest = items@.map_values(|x: Minion| x@);
                items.insert(0, m);
                proof {
                    assert(items@.map_values(|x: Minion| x@) =~= seq![m@] + rest);
                }
                Some(items)
            },
        }
    }
}

fn parse_mount_items(fs: &Vec<String>, i: usize, k: usize) -> (r: Option<Vec<Mount>>)
    requires
        i <= fs@.len(),
    ensures
        match r {
            Some(items) => spec_parse_icons(fields_view(fs@), i as int, k as nat) == Some(
                items@.map_values(|m: Mount| m@),
            ) && items@.len() == k && i + 2 * k <= fs@.len(),
            None => spec_parse_icons(fields_view(fs@), i as int, k as nat) is None,
        },
    decreases k,
{
    if k == 0 {
        let empty: Vec<Mount> = Vec::new();
        proof {
            assert(empty@.map_values(|m: Mount| m@) =~= Seq::<IconV>::empty());
        }
        Some(empty)
    } else if fs.len() - i < 2 {
        None
    } else {
        let m = Mount { name: fs[i].clone(), image_url: fs[i + 1].clone() };
        match parse_mount_items(fs, i + 2, k - 1) {
            None => None,
            Some(mut items) => {
                let ghost rest = items@.map_values(|x: Mount| x@);
                items.insert(0, m);
                proof {
                    assert(items@.map_values(|x: Mount| x@) =~= seq![m@] + rest);
                }
                Some(items)
            },
        }
    }
}

fn parse_ach_section(fs: &Vec<String>, i: usize) -> (r: Option<(Achievements, usize)>)
    requires
        i <= fs@.len(),
    ensures
        match r {
            Some(p) => spec_parse_ach_section(fields_view(fs@), i as int) == Some(
                (p.0@, p.1 as int),
            ) && p.1 <= fs@.len(),
            None => spec_parse_ach_section(fields_view(fs@), i as int) is None,
        },
{
    let n = fs.len();
    if n - i < 3 {
        return None;
    }
    if !str_eq(fs[i].as_str(), "achievements") {
        return None;
    }
    let c = match parse_i64(fs[i + 1].as_str()) {
        None => {
            return None;
        },
        Some(x) => x,
    };
    let k64 = match parse_u64(fs[i + 2].as_str()) {
        None => {
            return None;
        },
        Some(x) => x,
    };
    if c < -2147483648i64 || c > 2147483647i64 {
        return None;
    }
    if k64 > ((n - i - 3) / 3) as u64 {
        proof {
            lemma_parse_achs_overflow(fields_view(fs@), i + 3, k64 as nat);
        }
        return None;
    }
    let k = k64 as usize;
    match parse_achs(fs, i + 3, k) {
        None => None,
        Some(items) => Some((Achievements { items, count: c as i32 }, i + 3 + 3 * k)),
    }
}

fn parse_minions_section(fs: &Vec<String>, i: usize) -> (r: Option<(Minions, usize)>)
    requires
        i <= fs@.len(),
    ensures
        match r {
            Some(p) => spec_parse_icon_section(fields_view(fs@), i as int, "minions"@) == Some(
                (p.0@, p.1 as int),
            ) && p.1 <= fs@.len(),
            None => spec_parse_icon_section(fields_view(fs@), i as int, "minions"@) is None,
        },
{
    let n = fs.len();
    if n - i < 3 {
        return None;
    }
    if !str_eq(fs[i].as_str(), "minions") {
        return None;
    }
    let c = match parse_i64(fs[i + 1].as_str()) {
        None => {
            return None;
        },
        Some(x) => x,
    };
    let k64 = match parse_u64(fs[i + 2].as_str()) {
        None => {
            return None;
        },
        Some(x) => x,
    };
    if c < -2147483648i64 || c > 2147483647i64 {
        return None;
    }
    if k64 > ((n - i - 3) / 2) as u64 {
        proof {
            lemma_parse_icons_overflow(fields_view(fs@), i + 3, k64 as nat);
        }
        return None;
    }
    let k = k64 as usize;
    match parse_minion_items(fs, i + 3, k) {
        None => None,
        Some(items) => Some((Minions { items, count: c as i32 }, i + 3 + 2 * k)),
    }
}

fn parse_mounts_section(fs: &Vec<String>, i: usize) -> (r: Option<(Mounts, usize)>)
    requires
        i <= fs@.len(),
    ensures
        match r {
            Some(p) => spec_parse_icon_section(fields_view(fs@), i as int, "mounts"@) == Some(
                (p.0@, p.1 as int),
            ) && p.1 <= fs@.len(),
            None => spec_parse_icon_section(fields_view(fs@), i as int, "mounts"@) is None,
        },
{
    let n = fs.len();
    if n - i < 3 {
        return None;
    }
    if !str_eq(fs[i].as_str(), "mounts") {
        return None;
    }
    let c = match parse_i64(fs[i + 1].as_str()) {
        None => {
            return None;
        },
        Some(x) => x,
    };
    let k64 = match parse_u64(fs[i + 2].as_str()) {
        None => {
            return None;
        },
        Some(x) => x,
    };
    if c < -2147483648i64 || c > 2147483647i64 {
        return None;
    }
    if k64 > ((n - i - 3) / 2) as u64 {
        proof {
            lemma_parse_icons_overflow(fields_view(fs@), i + 3, k64 as nat);
        }
        return None;
    }
    let k = k64 as usize;
    match parse_mount_items(fs, i + 3, k) {
        None => None,
        Some(items) => Some((Mounts { items, count: c as i32 }, i + 3 + 2 * k)),
    }
}

/// Read a flat field record back into an avatar.
pub fn avatar_from_record(fs: &Vec<String>) -> (r: Option<FF14Avatar>)
    ensures
        match r {
            Some(a) => spec_parse_record(fields_view(fs@)) == Some(a@),
            None => spec_parse_record(fields_view(fs@)) is None,
        },
{
    let n = fs.len();
    if n < 12 {
        return None;
    }
    if !str_eq(fs[0].as_str(), "id") || !str_eq(fs[2].as_str(), "name") || !str_eq(
        fs[4].as_str(),
        "image_url",
    ) || !str_eq(fs[6].as_str(), "image_hash") || !str_eq(fs[8].as_str(), "fetched_at")
        || !str_eq(fs[10].as_str(), "jobs") {
        return None;
    }
    let fat = match parse_i64(fs[9].as_str()) {
        None => {
            return None;
        },
        Some(x) => x,
    };
    let nj = match parse_u64(fs[11].as_str()) {
        None => {
            return None;
        },
        Some(x) => x,
    };
    if nj > ((n - 12) / 3) as u64 {
        proof {
            lemma_parse_jobs_overflow(fields_view(fs@), 12, nj as nat);
        }
        return None;
    }
    let kj = nj as usize;
    let jobs = match parse_jobs(fs, 12, kj) {
        None => {
            return None;
        },
        Some(v) => v,
    };
    let i1 = 12 + 3 * kj;
    let (achievements, i2) = match parse_ach_section(fs, i1) {
        None => {
            return None;
        },
        Some(p) => p,
    };
    let (minions, i3) = match parse_minions_section(fs, i2) {
        None => {
            return None;
        },
        Some(p) => p,
    };
    let (mounts, i4) = match parse_mounts_section(fs, i3) {
        None => {
            return None;
        },
        Some(p) => p,
    };
    if i4 != n {
        return None;
    }
    Some(
        FF14Avatar {
            id: fs[1].clone(),
            name: fs[3].clone(),
            image_url: fs[5].clone(),
            jobs,
            achievements,
            minions,
            mounts,
            fetched_at: fat,
            image_hash: fs[7].clone(),
        },
    )
}

proof fn lemma_jobs_fields_len(js: Seq<JobV>)
    ensures
        jobs_fields(js).len() == 3 * js.len(),
    decreases js.len(),
{
    if js.len() > 0 {
        lemma_jobs_fields_len(js.drop_first());
    }
}

proof fn lemma_achs_fields_len(items: Seq<AchievementV>)
    ensures
        achs_fields(items).len() == 3 * items.len(),
    decreases items.len(),
{
    if items.len() > 0 {
        lemma_achs_fields_len(items.drop_first());
    }
}

proof fn lemma_icons_fields_len(items: Seq<IconV>)
    ensures
        icons_fields(items).len() == 2 * items.len(),
    decreases items.len(),
{
    if items.len() > 0 {
        lemma_icons_fields_len(items.drop_first());
    }
}

proof fn lemma_parse_jobs_round(fs: Seq<Seq<char>>, i: int, js: Seq<JobV>)
    requires
        0 <= i,
        i + 3 * js.len() <= fs.len(),
        forall|u: int| 0 <= u < 3 * js.len() ==> fs[i + u] == #[trigger] jobs_fields(js)[u],
    ensures
        spec_parse_jobs(fs, i, js.len()) == Some(js),
    decreases js.len(),
{
    lemma_jobs_fields_len(js);
    if js.len() == 0 {
        assert(Seq::<JobV>::empty() =~= js);
    } else {
        let tail = js.drop_first();
        lemma_jobs_fields_len(tail);
        assert(jobs_fields(js)[0] == js[0].name);
        assert(jobs_fields(js)[1] == js[0].level);
        assert(jobs_fields(js)[2] == js[0].image_url);
        assert(fs[i + 0] == jobs_fields(js)[0]);
        assert(fs[i + 1] == jobs_fields(js)[1]);
        assert(fs[i + 2] == jobs_fields(js)[2]);
        assert forall|u: int| 0 <= u < 3 * tail.len() implies fs[i + 3 + u] == #[trigger] jobs_fields(
            tail,
        )[u] by {
            assert(fs[i + (3 + u)] == jobs_fields(js)[3 + u]);
            assert(jobs_fields(js)[3 + u] == jobs_fields(tail)[u]);
        }
        lemma_parse_jobs_round(fs, i + 3, tail);
        assert(seq![js[0]] + tail =~= js);
    }
}

proof fn lemma_parse_achs_round(fs: Seq<Seq<char>>, i: int, items: Seq<AchievementV>)
    requires
        0 <= i,
        i + 3 * items.len() <= fs.len(),
        forall|u: int| 0 <= u < 3 * items.len() ==> fs[i + u] == #[trigger] achs_fields(items)[u],
        forall|u: int|
            0 <= u < items.len() ==> -0x8000000000000000 <= (#[trigger] items[u]).date
                <= 0x7fffffffffffffff,
    ensures
        spec_parse_achs(fs, i, items.len()) == Some(items),
    decreases items.len(),
{
    lemma_achs_fields_len(items);
    if items.len() == 0 {
        assert(Seq::<AchievementV>::empty() =~= items);
    } else {
        let tail = items.drop_first();
        lemma_achs_fields_len(tail);
        assert(achs_fields(items)[0] == items[0].title);
        assert(achs_fields(items)[1] == dec_int(items[0].date));
        assert(achs_fields(items)[2] == items[0].image_url);
        assert(fs[i + 0] == achs_fields(items)[0]);
        assert(fs[i + 1] == achs_fields(items)[1]);
        assert(fs[i + 2] == achs_fields(items)[2]);
        assert(-0x8000000000000000 <= items[0].date <= 0x7fffffffffffffff);
        let d = items[0].date as i64;
        lemma_parse_dec_int(d);
        assert(spec_parse_i64(fs[i + 1]) == Some(d));
        assert forall|u: int| 0 <= u < 3 * tail.len() implies fs[i + 3 + u] == #[trigger] achs_fields(
            tail,
        )[u] by {
            assert(fs[i + (3 + u)] == achs_fields(items)[3 + u]);
            assert(achs_fields(items)[3 + u] == achs_fields(tail)[u]);
        }
        assert forall|u: int| 0 <= u < tail.len() implies -0x8000000000000000 <= (
        #[trigger] tail[u]).date <= 0x7fffffffffffffff by {
            assert(tail[u] == items[u + 1]);
        }
        lemma_parse_achs_round(fs, i + 3, tail);
        assert(seq![items[0]] + tail =~= items);
    }
}

proof fn lemma_parse_icons_round(fs: Seq<Seq<char>>, i: int, items: Seq<IconV>)
    requires
        0 <= i,
        i + 2 * items.len() <= fs.len(),
        forall|u: int| 0 <= u < 2 * items.len() ==> fs[i + u] == #[trigger] icons_fields(items)[u],
    ensures
        spec_parse_icons(fs, i, items.len()) == Some(items),
    decreases items.len(),
{
    lemma_icons_fields_len(items);
    if items.len() == 0 {
        assert(Seq::<IconV>::empty() =~= items);
    } else {
        let tail = items.drop_first();
        lemma_icons_fields_len(tail);
        assert(icons_fields(items)[0] == items[0].name);
        assert(icons_fields(items)[1] == items[0].image_url);
        assert(fs[i + 0] == icons_fields(items)[0]);
        assert(fs[i + 1] == icons_fields(items)[1]);
        assert forall|u: int| 0 <= u < 2 * tail.len() implies fs[i + 2 + u] == #[trigger] icons_fields(
            tail,
        )[u] by {
            assert(fs[i + (2 + u)] == icons_fields(items)[2 + u]);
            assert(icons_fields(items)[2 + u] == icons_fields(tail)[u]);
        }
        lemma_parse_icons_round(fs, i + 2, tail);
        assert(seq![items[0]] + tail =~= items);
    }
}

/// Writing an avatar as its record and reading the record back yields the
/// avatar again, field for field: the round trip loses nothing.
#[verifier::rlimit(60)]
pub proof fn lemma_record_round_trip(a: &FF14Avatar)
    ensures
        spec_parse_record(record_of(a@)) == Some(a@),
{
    let av = a@;
    let fs = record_of(av);
    let jn = av.jobs.len();
    let an = av.achievements.items.len();
    let mi_n = av.minions.items.len();
    let mo_n = av.mounts.items.len();
    lemma_jobs_fields_len(av.jobs);
    lemma_achs_fields_len(av.achievements.items);
    lemma_icons_fields_len(av.minions.items);
    lemma_icons_fields_len(av.mounts.items);
    vstd::std_specs::vec::axiom_spec_len(&a.jobs);
    vstd::std_specs::vec::axiom_spec_len(&a.achievements.items);
    vstd::std_specs::vec::axiom_spec_len(&a.minions.items);
    vstd::std_specs::vec::axiom_spec_len(&a.mounts.items);
    assert(jn <= usize::MAX && an <= usize::MAX && mi_n <= usize::MAX && mo_n <= usize::MAX);
    assert(fs.len() == 12 + 3 * jn + 3 + 3 * an + 3 + 2 * mi_n + 3 + 2 * mo_n);
    assert(fs[0] == "id"@ && fs[1] == av.id && fs[2] == "name"@ && fs[3] == av.name && fs[4]
        == "image_url"@ && fs[5] == av.image_url && fs[6] == "image_hash"@ && fs[7]
        == av.image_hash && fs[8] == "fetched_at"@ && fs[9] == dec_int(av.fetched_at) && fs[10]
        == "jobs"@ && fs[11] == dec_nat(jn));
    lemma_parse_dec_int(a.fetched_at);
    assert((jn as u64) as nat == jn);
    lemma_parse_dec_u64(jn as u64);
    assert(spec_parse_u64(fs[11]) == Some(jn as u64));
    assert forall|u: int| 0 <= u < 3 * jn implies fs[12 + u] == #[trigger] jobs_fields(av.jobs)[u]
        by {}
    lemma_parse_jobs_round(fs, 12, av.jobs);
    assert(spec_parse_jobs(fs, 12, (jn as u64) as nat) == Some(av.jobs));
    let i1 = 12 + 3 * (jn as int);
    assert(fs[i1] == "achievements"@ && fs[i1 + 1] == dec_int(av.achievements.count) && fs[i1 + 2]
        == dec_nat(an));
    lemma_parse_dec_int(a.achievements.count as i64);
    assert((an as u64) as nat == an);
    lemma_parse_dec_u64(an as u64);
    assert forall|u: int| 0 <= u < 3 * an implies fs[i1 + 3 + u] == #[trigger] achs_fields(
        av.achievements.items,
    )[u] by {}
    assert forall|u: int| 0 <= u < an implies -0x8000000000000000 <= (
    #[trigger] av.achievements.items[u]).date <= 0x7fffffffffffffff by {
        assert(av.achievements.items[u] == a.achievements.items@[u]@);
    }
    lemma_parse_achs_round(fs, i1 + 3, av.achievements.items);
    assert(av.achievements == (AchievementsV {
        items: av.achievements.items,
        count: (a.achievements.count as i64) as int,
    }));
    let i2 = i1 + 3 + 3 * (an as int);
    assert(spec_parse_ach_section(fs, i1) == Some((av.achievements, i2)));
    assert(fs[i2] == "minions"@ && fs[i2 + 1] == dec_int(av.minions.count) && fs[i2 + 2]
        == dec_nat(mi_n));
    lemma_parse_dec_int(a.minions.count as i64);
    assert((mi_n as u64) as nat == mi_n);
    lemma_parse_dec_u64(mi_n as u64);
    assert forall|u: int| 0 <= u < 2 * mi_n implies fs[i2 + 3 + u] == #[trigger] icons_fields(
        av.minions.items,
    )[u] by {}
    lemma_parse_icons_round(fs, i2 + 3, av.minions.items);
    assert(av.minions == (IconsV {
        items: av.minions.items,
        count: (a.minions.count as i64) as int,
    }));
    let i3 = i2 + 3 + 2 * (mi_n as int);
    assert(spec_parse_icon_section(fs, i2, "minions"@) == Some((av.minions, i3)));
    assert(fs[i3] == "mounts"@ && fs[i3 + 1] == dec_int(av.mounts.count) && fs[i3 + 2] == dec_nat(
        mo_n,
    ));
    lemma_parse_dec_int(a.mounts.count as i64);
    assert((mo_n as u64) as nat == mo_n);
    lemma_parse_dec_u64(mo_n as u64);
    assert forall|u: int| 0 <= u < 2 * mo_n implies fs[i3 + 3 + u] == #[trigger] icons_fields(
        av.mounts.items,
    )[u] by {}
    lemma_parse_icons_round(fs, i3 + 3, av.mounts.items);
    assert(av.mounts == (IconsV {
        items: av.mounts.items,
        count: (a.mounts.count as i64) as int,
    }));
    let i4 = i3 + 3 + 2 * (mo_n as int);
    assert(spec_parse_icon_section(fs, i3, "mounts"@) == Some((av.mounts, i4)));
    assert(i4 == fs.len());
    assert(av == (AvatarV {
        id: fs[1],
        name: fs[3],
        image_url: fs[5],
        jobs: av.jobs,
        achievements: av.achievements,
        minions: av.minions,
        mounts: av.mounts,
        fetched_at: (a.fetched_at as i64) as int,
        image_hash: fs[7],
    }));
}

} // verus!
