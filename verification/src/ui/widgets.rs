//! Text helpers for the panels: shortening names to fit a column and
//! rendering durations.

use vstd::prelude::*;

use crate::decimal::{
    float_of_whole, float_of_whole_u64, float_quotient_tenths, float_quotient_tenths_u128,
    lemma_pow2_10, lemma_pow2_45, lemma_quotient_exp_bound, one_decimal, push_one_decimal, round_half_even,
    round_half_even_u128,
};
use crate::text::{
    all_digits, chars_of, dec_nat, digits_value, lemma_dec_nat_reads_back, push_decimal,
    string_from_chars,
};

verus! {

/// `s` cut to at most `max` characters; a cut string ends in an ellipsis.
pub open spec fn truncated(s: Seq<char>, max: nat) -> Seq<char> {
    if max == 0 {
        Seq::empty()
    } else if s.len() <= max {
        s
    } else {
        s.take(max - 1).push('…')
    }
}

/// Shortens `s` to at most `max` characters, marking a cut with `…`.
pub fn truncate(s: &str, max: usize) -> (r: String)
    ensures
        r@ == truncated(s@, max as nat),
{
    if max == 0 {
        return String::new();
    }
    let cs = chars_of(s);
    if cs.len() <= max {
        return string_from_chars(cs.as_slice());
    }
    let mut out: Vec<char> = Vec::new();
    let mut i: usize = 0;
    while i < max - 1
        invariant
            cs@ == s@,
            max > 0,
            max < cs@.len(),
            i <= max - 1,
            out@ == s@.take(i as int),
        decreases max - 1 - i,
    {
        out.push(cs[i]);
        i = i + 1;
        assert(out@ =~= s@.take(i as int));
    }
    out.push('…');
    string_from_chars(out.as_slice())
}

/// A mount point shown in at most fourteen characters: a longer path keeps
/// its last thirteen characters behind a leading `…`.
pub open spec fn trimmed_mount(m: Seq<char>) -> Seq<char> {
    if m.len() <= 14 {
        m
    } else {
        seq!['…'] + m.skip(m.len() - 13)
    }
}

/// Shortens a mount point from the left so that its tail stays readable.
pub fn trim_mount(m: &str) -> (r: String)
    ensures
        r@ == trimmed_mount(m@),
{
    let cs = chars_of(m);
    let count = cs.len();
    if count <= 14 {
        return string_from_chars(cs.as_slice());
    }
    let mut out: Vec<char> = Vec::new();
    out.push('…');
    let start = count - 13;
    let mut i: usize = start;
    while i < count
        invariant
            cs@ == m@,
            count == cs@.len(),
            count > 14,
            start == count - 13,
            start <= i <= count,
            out@ == seq!['…'] + m@.subrange(start as int, i as int),
        decreases count - i,
    {
        out.push(cs[i]);
        i = i + 1;
        assert(out@ =~= seq!['…'] + m@.subrange(start as int, i as int));
    }
    assert(m@.subrange(start as int, count as int) =~= m@.skip(m@.len() - 13));
    string_from_chars(out.as_slice())
}

/// An uptime of `s` whole seconds: `"{d}d {h}h {m}m"` once it reaches a day,
/// `"{h}h {m}m"` before that.
pub open spec fn uptime_text(s: nat) -> Seq<char> {
    let d = s / 86400;
    let h = (s % 86400) / 3600;
    let m = (s % 3600) / 60;
    if d > 0 {
        dec_nat(d) + seq!['d', ' '] + dec_nat(h) + seq!['h', ' '] + dec_nat(m) + seq!['m']
    } else {
        dec_nat(h) + seq!['h', ' '] + dec_nat(m) + seq!['m']
    }
}

/// Renders an uptime given in whole seconds (any fraction dropped).
pub fn fmt_uptime(secs: u64) -> (r: String)
    ensures
        r@ == uptime_text(secs as nat),
{
    let d = secs / 86400;
    let h = (secs % 86400) / 3600;
    let m = (secs % 3600) / 60;
    let mut out: Vec<char> = Vec::new();
    if d > 0 {
        push_decimal(&mut out, d);
        out.push('d');
        out.push(' ');
    }
    push_decimal(&mut out, h);
    out.push('h');
    out.push(' ');
    push_decimal(&mut out, m);
    out.push('m');
    assert(out@ =~= uptime_text(secs as nat));
    string_from_chars(out.as_slice())
}

/// The parts of an uptime: whole days, the hours and the minutes left over
/// fill all but the last partial minute of it.
proof fn lemma_uptime_parts(s: nat)
    ensures
        (s % 86400) / 3600 < 24,
        (s % 3600) / 60 < 60,
        (s / 86400) * 86400 + ((s % 86400) / 3600) * 3600 + ((s % 3600) / 60) * 60 <= s,
        s < (s / 86400) * 86400 + ((s % 86400) / 3600) * 3600 + ((s % 3600) / 60) * 60 + 60,
{
    let d = s / 86400;
    let r1 = s % 86400;
    let h = r1 / 3600;
    let r2 = r1 % 3600;
    assert(s == d * 86400 + r1 && r1 < 86400);
    assert(r1 == h * 3600 + r2 && r2 < 3600);
    assert(s == (d * 24 + h) * 3600 + r2);
    vstd::arithmetic::div_mod::lemma_fundamental_div_mod_converse(
        s as int,
        3600,
        (d * 24 + h) as int,
        r2 as int,
    );
    assert(s % 3600 == r2);
    let m = r2 / 60;
    assert(r2 == m * 60 + r2 % 60);
}

/// The uptime text reads back to the uptime: from a day on it is a day
/// count, `d `, an hour count, `h `, a minute count and `m`; before that the
/// hours and minutes alone. Each count is a run of digits, the hours stay
/// below 24 and the minutes below 60, and together they make up the uptime
/// to within its last partial minute.
pub proof fn lemma_uptime_reads_back(s: nat)
    ensures
        s >= 86400 ==> exists|d: Seq<char>, h: Seq<char>, m: Seq<char>|
            #![trigger digits_value(d), digits_value(h), digits_value(m)]
            uptime_text(s) == d + seq!['d', ' '] + h + seq!['h', ' '] + m + seq!['m']
                && d.len() > 0 && h.len() > 0 && m.len() > 0 && all_digits(d) && all_digits(h)
                && all_digits(m) && digits_value(h) < 24 && digits_value(m) < 60
                && digits_value(d) * 86400 + digits_value(h) * 3600 + digits_value(m) * 60 <= s
                && s < digits_value(d) * 86400 + digits_value(h) * 3600 + digits_value(m) * 60
                + 60,
        s < 86400 ==> exists|h: Seq<char>, m: Seq<char>|
            #![trigger digits_value(h), digits_value(m)]
            uptime_text(s) == h + seq!['h', ' '] + m + seq!['m'] && h.len() > 0 && m.len() > 0
                && all_digits(h) && all_digits(m) && digits_value(h) < 24 && digits_value(m) < 60
                && digits_value(h) * 3600 + digits_value(m) * 60 <= s && s < digits_value(h)
                * 3600 + digits_value(m) * 60 + 60,
{
    let d = s / 86400;
    let h = (s % 86400) / 3600;
    let m = (s % 3600) / 60;
    lemma_uptime_parts(s);
    lemma_dec_nat_reads_back(d);
    lemma_dec_nat_reads_back(h);
    lemma_dec_nat_reads_back(m);
    if s >= 86400 {
        assert(d > 0);
        assert(digits_value(dec_nat(d)) == d);
        assert(digits_value(dec_nat(h)) == h);
        assert(digits_value(dec_nat(m)) == m);
    } else {
        assert(d == 0);
        assert(digits_value(dec_nat(h)) == h);
        assert(digits_value(dec_nat(m)) == m);
    }
}

/// A cut name never takes more than the column allows, and a name that fits
/// is shown whole.
pub proof fn lemma_truncate_fits(s: Seq<char>, max: nat)
    ensures
        truncated(s, max).len() <= max,
        s.len() <= max && max > 0 ==> truncated(s, max) == s,
        s.len() > max && max > 0 ==> truncated(s, max).last() == '…',
{
}

/// A trimmed mount point never takes more than fourteen characters and keeps
/// the end of the path.
pub proof fn lemma_trim_mount_fits(m: Seq<char>)
    ensures
        trimmed_mount(m).len() <= 14,
        m.len() > 14 ==> trimmed_mount(m).skip(1) == m.skip(m.len() - 13),
{
    if m.len() > 14 {
        assert((seq!['…'] + m.skip(m.len() - 13)).skip(1) =~= m.skip(m.len() - 13));
    }
}

/// A size given in KiB as the panels print it: whole MiB (`"{}M"`) below
/// 1024 MiB, GiB with one decimal (`"{:.1}G"`) from there. The figures are
/// those of the binary float the size becomes, rounded half to even.
pub open spec fn kb_text(kb: nat) -> Seq<char> {
    if kb < 0x10_0000 {
        dec_nat(round_half_even(kb, 1024)) + seq!['M']
    } else {
        one_decimal(round_half_even(float_of_whole(kb) * 10, 0x10_0000)) + seq!['G']
    }
}

/// Renders a size given in KiB.
pub fn fmt_kb(kb: u64) -> (r: String)
    ensures
        r@ == kb_text(kb as nat),
{
    let mut out: Vec<char> = Vec::new();
    if kb < 0x10_0000 {
        let mb = round_half_even_u128(kb as u128, 1024);
        push_decimal(&mut out, mb as u64);
        out.push('M');
    } else {
        let v = float_of_whole_u64(kb);
        let t = round_half_even_u128(v * 10, 0x10_0000);
        push_one_decimal(&mut out, t);
        out.push('G');
    }
    assert(out@ =~= kb_text(kb as nat));
    string_from_chars(out.as_slice())
}

/// An event count per second as the panels print it: the plain number below
/// a thousand, thousands with one decimal (`"{:.1}K"`) below a million,
/// millions with one decimal (`"{:.1}M"`) from there. The decimals are those
/// of the binary float quotient, rounded half to even.
pub open spec fn rate_text(n: nat) -> Seq<char> {
    if n < 1000 {
        dec_nat(n)
    } else if n < 1_000_000 {
        one_decimal(float_quotient_tenths(n, 1000)) + seq!['K']
    } else {
        one_decimal(float_quotient_tenths(float_of_whole(n), 1_000_000)) + seq!['M']
    }
}

/// Renders an event count per second.
pub fn fmt_rate(n: u64) -> (r: String)
    ensures
        r@ == rate_text(n as nat),
{
    let mut out: Vec<char> = Vec::new();
    if n < 1000 {
        push_decimal(&mut out, n);
    } else if n < 1_000_000 {
        proof {
            lemma_pow2_10();
            lemma_quotient_exp_bound(n as nat, 1000, 9);
        }
        let t = float_quotient_tenths_u128(n as u128, 1000);
        push_one_decimal(&mut out, t);
        out.push('K');
    } else {
        let v = float_of_whole_u64(n);
        proof {
            lemma_pow2_45();
            lemma_quotient_exp_bound(v as nat, 1_000_000, 44);
        }
        let t = float_quotient_tenths_u128(v, 1_000_000);
        push_one_decimal(&mut out, t);
        out.push('M');
    }
    assert(out@ =~= rate_text(n as nat));
    string_from_chars(out.as_slice())
}

} // verus!
