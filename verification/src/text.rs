//! Character-level text helpers: decimal rendering, substring search,
//! lexicographic comparison and conversions between strings and chars.

use vstd::prelude::*;

verus! {

/// The character of a decimal digit.
pub open spec fn digit_char(d: int) -> char {
    if d == 0 { '0' }
    else if d == 1 { '1' }
    else if d == 2 { '2' }
    else if d == 3 { '3' }
    else if d == 4 { '4' }
    else if d == 5 { '5' }
    else if d == 6 { '6' }
    else if d == 7 { '7' }
    else if d == 8 { '8' }
    else { '9' }
}

/// The decimal digits of a natural number, most significant first, with no
/// leading zeros (zero is written `0`).
pub open spec fn dec_nat(n: nat) -> Seq<char>
    decreases n,
{
    if n < 10 {
        seq![digit_char(n as int)]
    } else {
        dec_nat(n / 10).push(digit_char((n % 10) as int))
    }
}

/// The decimal text of an integer, with a leading `-` when it is negative.
pub open spec fn dec_int(n: int) -> Seq<char> {
    if n < 0 {
        seq!['-'] + dec_nat((-n) as nat)
    } else {
        dec_nat(n as nat)
    }
}

/// The `len` characters of `s` that start at `start`.
pub open spec fn window(s: Seq<char>, start: int, len: int) -> Seq<char> {
    s.subrange(start, start + len)
}

/// `needle` occurs as a contiguous run inside `hay`.
pub open spec fn has_substring(hay: Seq<char>, needle: Seq<char>) -> bool {
    exists|i: int|
        0 <= i && i + needle.len() <= hay.len() && #[trigger] window(hay, i, needle.len() as int)
            == needle
}

/// Lexicographic order on character sequences (by code point), the order in
/// which Rust compares strings.
pub open spec fn seq_lt(a: Seq<char>, b: Seq<char>) -> bool
    decreases a.len(),
{
    if a.len() == 0 {
        b.len() > 0
    } else if b.len() == 0 {
        false
    } else if a[0] != b[0] {
        (a[0] as u32) < (b[0] as u32)
    } else {
        seq_lt(a.drop_first(), b.drop_first())
    }
}

/// The result of lowercasing a string by Unicode rules.
pub uninterp spec fn lowercase(s: Seq<char>) -> Seq<char>;

/// The text that replacing every invalid UTF-8 sequence of `bytes` by
/// U+FFFD gives.
pub uninterp spec fn utf8_lossy(bytes: Seq<u8>) -> Seq<char>;

/// A character with the Unicode `White_Space` property.
pub open spec fn is_white_space(c: char) -> bool {
    let u = c as u32;
    (0x9 <= u <= 0xd) || u == 0x20 || u == 0x85 || u == 0xa0 || u == 0x1680 || (0x2000 <= u
        <= 0x200a) || u == 0x2028 || u == 0x2029 || u == 0x202f || u == 0x205f || u == 0x3000
}

/// `s` without its leading whitespace.
pub open spec fn trimmed_start(s: Seq<char>) -> Seq<char>
    decreases s.len(),
{
    if s.len() > 0 && is_white_space(s[0]) {
        trimmed_start(s.drop_first())
    } else {
        s
    }
}

/// `s` without its trailing whitespace.
pub open spec fn trimmed_end(s: Seq<char>) -> Seq<char>
    decreases s.len(),
{
    if s.len() > 0 && is_white_space(s.last()) {
        trimmed_end(s.drop_last())
    } else {
        s
    }
}

/// A string with the whitespace at both ends removed.
pub open spec fn trimmed(s: Seq<char>) -> Seq<char> {
    trimmed_end(trimmed_start(s))
}

/// The ASCII lowercase of a character: `A`-`Z` become `a`-`z`, every other
/// character stays.
pub open spec fn ascii_lower(c: char) -> char {
    if 0x41 <= (c as u32) <= 0x5a {
        ((c as u32) + 0x20) as char
    } else {
        c
    }
}

/// Every character of `s` is ASCII.
pub open spec fn all_ascii(s: Seq<char>) -> bool {
    forall|i: int| 0 <= i < s.len() ==> (#[trigger] s[i] as u32) < 0x80
}

/// The lowercase of a string as far as it is known here: character by
/// character for ASCII text, the Unicode lowercase otherwise.
pub open spec fn lowered(s: Seq<char>) -> Seq<char> {
    if all_ascii(s) {
        s.map_values(|c: char| ascii_lower(c))
    } else {
        lowercase(s)
    }
}

/// `str::trim`: the string without leading and trailing characters that
/// have the Unicode `White_Space` property (`char::is_whitespace`).
#[verifier::external_body]
pub(crate) fn trim(s: &str) -> (r: &str)
    ensures
        r@ == trimmed(s@),
{
    s.trim()
}

/// `String::push`: appends one character.
#[verifier::external_body]
pub(crate) fn push_char(s: &mut String, c: char)
    ensures
        final(s)@ == old(s)@.push(c),
{
    s.push(c);
}

/// `String::pop`: removes and returns the last character, if any.
#[verifier::external_body]
pub(crate) fn pop_char(s: &mut String) -> (r: Option<char>)
    ensures
        old(s)@.len() == 0 ==> r is None && final(s)@ == old(s)@,
        old(s)@.len() > 0 ==> r == Some(old(s)@.last()) && final(s)@ == old(s)@.drop_last(),
{
    s.pop()
}

/// `str::to_lowercase`: the Unicode lowercase of a string. Its result is
/// named; the Unicode case tables are not restated here. What is said
/// besides is that an all-ASCII string lowercases character by character,
/// `A`-`Z` to `a`-`z`, the rest unchanged.
#[verifier::external_body]
pub(crate) fn to_lowercase(s: &str) -> (r: String)
    ensures
        r@ == lowercase(s@),
        all_ascii(s@) ==> r@ == s@.map_values(|c: char| ascii_lower(c)),
{
    s.to_lowercase()
}

/// `String::from_utf8_lossy`: decodes bytes as UTF-8, replacing invalid
/// sequences by U+FFFD. Its result is named; what is said besides is that
/// valid UTF-8 decodes to the characters it encodes. The replacement rules
/// for invalid input are not restated.
#[verifier::external_body]
pub(crate) fn from_utf8_lossy(bytes: &[u8]) -> (r: String)
    ensures
        r@ == utf8_lossy(bytes@),
        vstd::utf8::valid_utf8(bytes@) ==> r@ == vstd::utf8::decode_utf8(bytes@),
{
    String::from_utf8_lossy(bytes).into_owned()
}

/// The characters of a string, in order.
pub fn chars_of(s: &str) -> (v: Vec<char>)
    ensures
        v@ == s@,
{
    let n = s.unicode_len();
    let mut v: Vec<char> = Vec::new();
    let mut i: usize = 0;
    while i < n
        invariant
            n == s@.len(),
            i <= n,
            v@ == s@.subrange(0, i as int),
        decreases n - i,
    {
        let c = s.get_char(i);
        v.push(c);
        i = i + 1;
        assert(v@ =~= s@.subrange(0, i as int));
    }
    assert(v@ =~= s@);
    v
}

/// A string holding exactly the given characters.
pub fn string_from_chars(v: &[char]) -> (s: String)
    ensures
        s@ == v@,
{
    let mut s = String::new();
    let mut i: usize = 0;
    while i < v.len()
        invariant
            i <= v@.len(),
            s@ == v@.subrange(0, i as int),
        decreases v@.len() - i,
    {
        push_char(&mut s, v[i]);
        i = i + 1;
        assert(s@ =~= v@.subrange(0, i as int));
    }
    assert(s@ =~= v@);
    s
}

/// The digit character of `d`, which must be below ten.
pub fn digit(d: u64) -> (c: char)
    requires
        d < 10,
    ensures
        c == digit_char(d as int),
{
    match d {
        0 => '0',
        1 => '1',
        2 => '2',
        3 => '3',
        4 => '4',
        5 => '5',
        6 => '6',
        7 => '7',
        8 => '8',
        _ => '9',
    }
}

/// Appends the decimal digits of `n` to `out`.
pub fn push_decimal(out: &mut Vec<char>, n: u64)
    ensures
        final(out)@ == old(out)@ + dec_nat(n as nat),
    decreases n,
{
    if n < 10 {
        out.push(digit(n));
        assert(dec_nat(n as nat) =~= seq![digit_char(n as int)]);
    } else {
        push_decimal(out, n / 10);
        out.push(digit(n % 10));
    }
}

/// The decimal text of an unsigned number.
pub fn u64_to_string(n: u64) -> (s: String)
    ensures
        s@ == dec_nat(n as nat),
{
    let mut v: Vec<char> = Vec::new();
    push_decimal(&mut v, n);
    assert(v@ =~= dec_nat(n as nat));
    string_from_chars(v.as_slice())
}

/// The decimal text of a signed 32-bit number, as `i32::to_string` writes it.
pub fn i32_to_string(n: i32) -> (s: String)
    ensures
        s@ == dec_int(n as int),
{
    let mut v: Vec<char> = Vec::new();
    if n < 0 {
        v.push('-');
        let m: i64 = -(n as i64);
        push_decimal(&mut v, m as u64);
    } else {
        push_decimal(&mut v, n as u64);
    }
    assert(v@ =~= dec_int(n as int));
    string_from_chars(v.as_slice())
}

/// Whether `needle` occurs inside `hay`.
pub fn contains_chars(hay: &[char], needle: &[char]) -> (r: bool)
    ensures
        r == has_substring(hay@, needle@),
{
    let h = hay.len();
    let m = needle.len();
    if m > h {
        return false;
    }
    let mut i: usize = 0;
    while i <= h - m
        invariant
            h == hay@.len(),
            m == needle@.len(),
            m <= h,
            i <= h - m + 1,
            forall|k: int| 0 <= k < i ==> #[trigger] window(hay@, k, m as int) != needle@,
        decreases h - m + 1 - i,
    {
        let mut j: usize = 0;
        let mut same = true;
        while j < m
            invariant
                h == hay@.len(),
                m == needle@.len(),
                i + m <= h,
                j <= m,
                same <==> (forall|t: int| 0 <= t < j ==> hay@[i + t] == needle@[t]),
            decreases m - j,
        {
            if hay[i + j] != needle[j] {
                same = false;
            }
            j = j + 1;
        }
        if same {
            assert(window(hay@, i as int, m as int) =~= needle@);
            return true;
        }
        assert(exists|t: int| 0 <= t < m && hay@[i + t] != needle@[t]);
        let ghost t = choose|t: int| 0 <= t < m && hay@[i + t] != needle@[t];
        assert(window(hay@, i as int, m as int)[t] != needle@[t]);
        i = i + 1;
    }
    assert(!has_substring(hay@, needle@)) by {
        if has_substring(hay@, needle@) {
            let k = choose|k: int|
                0 <= k && k + needle@.len() <= hay@.len() && #[trigger] window(
                    hay@,
                    k,
                    needle@.len() as int,
                ) == needle@;
            assert(window(hay@, k, m as int) != needle@);
        }
    }
    false
}

/// Whether `a` comes before `b` in lexicographic order by code point.
pub fn chars_less(a: &[char], b: &[char]) -> (r: bool)
    ensures
        r == seq_lt(a@, b@),
{
    let mut i: usize = 0;
    assert(a@.skip(0) =~= a@);
    assert(b@.skip(0) =~= b@);
    while i < a.len() && i < b.len()
        invariant
            i <= a@.len(),
            i <= b@.len(),
            seq_lt(a@, b@) == seq_lt(a@.skip(i as int), b@.skip(i as int)),
        decreases a@.len() - i,
    {
        let ca = a[i];
        let cb = b[i];
        if ca != cb {
            return (ca as u32) < (cb as u32);
        }
        assert(a@.skip(i as int).drop_first() =~= a@.skip(i + 1));
        assert(b@.skip(i as int).drop_first() =~= b@.skip(i + 1));
        i = i + 1;
    }
    i < b.len()
}

/// Whether two strings hold the same characters.
pub fn str_eq(a: &str, b: &str) -> (r: bool)
    ensures
        r == (a@ == b@),
{
    let va = chars_of(a);
    let vb = chars_of(b);
    if va.len() != vb.len() {
        return false;
    }
    let mut i: usize = 0;
    while i < va.len()
        invariant
            va@ == a@,
            vb@ == b@,
            va@.len() == vb@.len(),
            i <= va@.len(),
            forall|k: int| 0 <= k < i ==> va@[k] == vb@[k],
        decreases va@.len() - i,
    {
        if va[i] != vb[i] {
            return false;
        }
        i = i + 1;
    }
    assert(va@ =~= vb@);
    true
}

/// No sequence comes before itself.
pub proof fn lemma_seq_lt_irreflexive(a: Seq<char>)
    ensures
        !seq_lt(a, a),
    decreases a.len(),
{
    if a.len() > 0 {
        lemma_seq_lt_irreflexive(a.drop_first());
    }
}

/// Lexicographic order is transitive.
pub proof fn lemma_seq_lt_transitive(a: Seq<char>, b: Seq<char>, c: Seq<char>)
    requires
        seq_lt(a, b),
        seq_lt(b, c),
    ensures
        seq_lt(a, c),
    decreases a.len(),
{
    if a.len() > 0 && b.len() > 0 && c.len() > 0 {
        if a[0] == b[0] && b[0] == c[0] {
            lemma_seq_lt_transitive(a.drop_first(), b.drop_first(), c.drop_first());
        }
    }
}


/// `a` and `b` agree on their first `k` characters and differ at position
/// `k`, where `a` has the smaller code point.
pub open spec fn smaller_at(a: Seq<char>, b: Seq<char>, k: int) -> bool {
    &&& 0 <= k < a.len()
    &&& k < b.len()
    &&& a.take(k) == b.take(k)
    &&& (a[k] as u32) < (b[k] as u32)
}

/// Strings compare by their whole text: `a` comes before `b` exactly when
/// `a` is a proper prefix of `b`, or at the first position where they differ
/// `a` has the smaller code point.
pub proof fn lemma_seq_lt_first_difference(a: Seq<char>, b: Seq<char>)
    ensures
        seq_lt(a, b) <==> ((a.len() < b.len() && b.take(a.len() as int) == a) || exists|k: int|
            #[trigger] smaller_at(a, b, k)),
    decreases a.len(),
{
    if a.len() == 0 {
        assert(b.take(0) =~= a);
    } else if b.len() == 0 {
    } else if a[0] != b[0] {
        if a.len() < b.len() && b.take(a.len() as int) == a {
            assert(b.take(a.len() as int)[0] == b[0]);
        }
        if (a[0] as u32) < (b[0] as u32) {
            assert(a.take(0) =~= b.take(0));
            assert(smaller_at(a, b, 0));
        }
        assert forall|k: int| #[trigger] smaller_at(a, b, k) implies k == 0 by {
            if k > 0 {
                assert(a.take(k)[0] == b.take(k)[0]);
            }
        }
    } else {
        let a1 = a.drop_first();
        let b1 = b.drop_first();
        lemma_seq_lt_first_difference(a1, b1);
        if a.len() < b.len() {
            if b.take(a.len() as int) == a {
                assert(b1.take(a1.len() as int) =~= a1) by {
                    assert forall|i: int| 0 <= i < a1.len() implies #[trigger] b1.take(
                        a1.len() as int,
                    )[i] == a1[i] by {
                        assert(b.take(a.len() as int)[i + 1] == a[i + 1]);
                    }
                }
            }
            if b1.take(a1.len() as int) == a1 {
                assert(b.take(a.len() as int) =~= a) by {
                    assert forall|i: int| 0 <= i < a.len() implies #[trigger] b.take(
                        a.len() as int,
                    )[i] == a[i] by {
                        if i > 0 {
                            assert(b1.take(a1.len() as int)[i - 1] == a1[i - 1]);
                        }
                    }
                }
            }
        }
        assert forall|k: int| #[trigger] smaller_at(a, b, k) implies smaller_at(a1, b1, k - 1) by {
            if k == 0 {
                assert(false);
            }
            assert(a1.take(k - 1) =~= b1.take(k - 1)) by {
                assert forall|i: int| 0 <= i < k - 1 implies #[trigger] a1.take(k - 1)[i]
                    == b1.take(k - 1)[i] by {
                    assert(a.take(k)[i + 1] == b.take(k)[i + 1]);
                }
            }
        }
        assert forall|k: int| #[trigger] smaller_at(a1, b1, k) implies smaller_at(a, b, k + 1) by {
            assert(a.take(k + 1) =~= b.take(k + 1)) by {
                assert forall|i: int| 0 <= i < k + 1 implies #[trigger] a.take(k + 1)[i] == b.take(
                    k + 1,
                )[i] by {
                    if i > 0 {
                        assert(a1.take(k)[i - 1] == b1.take(k)[i - 1]);
                    }
                }
            }
        }
        if exists|k: int| #[trigger] smaller_at(a1, b1, k) {
            let k = choose|k: int| #[trigger] smaller_at(a1, b1, k);
            assert(smaller_at(a, b, k + 1));
        }
        if exists|k: int| #[trigger] smaller_at(a, b, k) {
            let k = choose|k: int| #[trigger] smaller_at(a, b, k);
            assert(smaller_at(a1, b1, k - 1));
        }
    }
}

/// A decimal digit character.
pub open spec fn is_digit(c: char) -> bool {
    0x30 <= (c as u32) <= 0x39
}

/// Every character of `s` is a decimal digit.
pub open spec fn all_digits(s: Seq<char>) -> bool {
    forall|i: int| 0 <= i < s.len() ==> is_digit(#[trigger] s[i])
}

/// The number that a run of decimal digits reads as.
pub open spec fn digits_value(s: Seq<char>) -> int
    decreases s.len(),
{
    if s.len() == 0 {
        0
    } else {
        digits_value(s.drop_last()) * 10 + ((s.last() as u32) - 0x30)
    }
}

proof fn lemma_digit_char(d: int)
    requires
        0 <= d < 10,
    ensures
        is_digit(digit_char(d)),
        (digit_char(d) as u32) - 0x30 == d,
{
}

/// The decimal text of a natural number is a non-empty run of digits that
/// reads back as the number.
pub proof fn lemma_dec_nat_reads_back(n: nat)
    ensures
        dec_nat(n).len() > 0,
        all_digits(dec_nat(n)),
        digits_value(dec_nat(n)) == n,
    decreases n,
{
    if n < 10 {
        lemma_digit_char(n as int);
        assert(dec_nat(n).drop_last() =~= Seq::<char>::empty());
        assert(digits_value(Seq::<char>::empty()) == 0);
        assert(digits_value(dec_nat(n)) == digits_value(dec_nat(n).drop_last()) * 10 + ((
        dec_nat(n).last() as u32) - 0x30));
    } else {
        lemma_dec_nat_reads_back(n / 10);
        lemma_digit_char((n % 10) as int);
        let t = dec_nat(n);
        assert(t.drop_last() =~= dec_nat(n / 10));
        assert(digits_value(t) == digits_value(dec_nat(n / 10)) * 10 + ((t.last() as u32)
            - 0x30));
        assert(n == (n / 10) * 10 + n % 10);
        assert(all_digits(t)) by {
            assert forall|i: int| 0 <= i < t.len() implies is_digit(#[trigger] t[i]) by {
                if i < t.len() - 1 {
                    assert(t[i] == dec_nat(n / 10)[i]);
                }
            }
        }
    }
}

/// The decimal text of an integer reads back as the integer: digits for a
/// number that is not negative, a minus sign before the digits of its
/// magnitude otherwise.
pub proof fn lemma_dec_int_reads_back(n: int)
    ensures
        n >= 0 ==> all_digits(dec_int(n)) && digits_value(dec_int(n)) == n,
        n < 0 ==> dec_int(n).len() > 1 && dec_int(n)[0] == '-' && all_digits(
            dec_int(n).drop_first(),
        ) && digits_value(dec_int(n).drop_first()) == -n,
{
    if n >= 0 {
        lemma_dec_nat_reads_back(n as nat);
    } else {
        lemma_dec_nat_reads_back((-n) as nat);
        assert(dec_int(n).drop_first() =~= dec_nat((-n) as nat));
    }
}

/// Lowering ASCII text keeps its length and changes each character only by
/// case: no capital `A`-`Z` is left, a capital becomes the same letter in
/// small, and every other character stays.
pub proof fn lemma_lowered_ascii(s: Seq<char>)
    requires
        all_ascii(s),
    ensures
        lowered(s).len() == s.len(),
        forall|i: int|
            0 <= i < s.len() ==> !(0x41 <= (#[trigger] lowered(s)[i] as u32) <= 0x5a) && if 0x41
                <= (s[i] as u32) <= 0x5a {
                (lowered(s)[i] as u32) == (s[i] as u32) + 0x20
            } else {
                lowered(s)[i] == s[i]
            },
{
}

} // verus!
