//! Character-sequence utilities: lexicographic order, prefix and suffix
//! tests, and fixed-width decimal formatting.

use vstd::arithmetic::div_mod::lemma_basic_div;
use vstd::arithmetic::div_mod::lemma_breakdown;
use vstd::arithmetic::div_mod::lemma_div_denominator;
use vstd::arithmetic::div_mod::lemma_fundamental_div_mod;
use vstd::arithmetic::div_mod::lemma_fundamental_div_mod_converse_div;
use vstd::arithmetic::div_mod::lemma_fundamental_div_mod_converse_mod;
use vstd::arithmetic::div_mod::lemma_mod_division_less_than_divisor;
use vstd::arithmetic::div_mod::lemma_multiply_divide_lt;
use vstd::arithmetic::div_mod::lemma_small_mod;
use vstd::prelude::*;
use vstd::relations::total_ordering;
use vstd::string::StrSliceExecFns;
use vstd::string::StringExecFns;

verus! {

/// Lexicographic comparison of `a` and `b` by code point, starting at
/// position `i`: true iff `a` from `i` on is at most `b` from `i` on.
pub open spec fn lex_leq_from(a: Seq<char>, b: Seq<char>, i: int) -> bool
    decreases a.len() - i,
{
    if i >= a.len() {
        true
    } else if i >= b.len() {
        false
    } else if (a[i] as u32) < (b[i] as u32) {
        true
    } else if (a[i] as u32) > (b[i] as u32) {
        false
    } else {
        lex_leq_from(a, b, i + 1)
    }
}

/// Lexicographic order on character sequences by code point.
pub open spec fn lex_leq(a: Seq<char>, b: Seq<char>) -> bool {
    lex_leq_from(a, b, 0)
}

/// The lexicographic order as a relation value, for use with `sort_by`.
pub open spec fn lex_leq_fn() -> spec_fn(Seq<char>, Seq<char>) -> bool {
    |x: Seq<char>, y: Seq<char>| lex_leq(x, y)
}

proof fn lemma_lex_leq_from_reflexive(a: Seq<char>, i: int)
    ensures
        lex_leq_from(a, a, i),
    decreases a.len() - i,
{
    if i < a.len() {
        lemma_lex_leq_from_reflexive(a, i + 1);
    }
}

proof fn lemma_lex_leq_from_connected(a: Seq<char>, b: Seq<char>, i: int)
    ensures
        lex_leq_from(a, b, i) || lex_leq_from(b, a, i),
    decreases a.len() - i,
{
    if i < a.len() && i < b.len() && a[i] as u32 == b[i] as u32 {
        lemma_lex_leq_from_connected(a, b, i + 1);
    }
}

proof fn lemma_lex_leq_from_antisymmetric(a: Seq<char>, b: Seq<char>, i: int)
    requires
        lex_leq_from(a, b, i),
        lex_leq_from(b, a, i),
    ensures
        (a.len() <= i && b.len() <= i) || (a.len() == b.len() && forall|j: int|
            i <= j < a.len() ==> a[j] == b[j]),
    decreases a.len() - i,
{
    if i >= a.len() {
        assert(i >= b.len());
    } else {
        assert(i < b.len());
        assert(a[i] as u32 == b[i] as u32);
        vstd::utf8::char_u32_cast(a[i], a[i] as u32);
        vstd::utf8::char_u32_cast(b[i], b[i] as u32);
        assert(a[i] == b[i]);
        lemma_lex_leq_from_antisymmetric(a, b, i + 1);
    }
}

proof fn lemma_lex_leq_from_transitive(a: Seq<char>, b: Seq<char>, c: Seq<char>, i: int)
    requires
        lex_leq_from(a, b, i),
        lex_leq_from(b, c, i),
    ensures
        lex_leq_from(a, c, i),
    decreases a.len() - i,
{
    if i < a.len() {
        assert(i < b.len());
        assert(i < c.len());
        if a[i] as u32 == b[i] as u32 && b[i] as u32 == c[i] as u32 {
            lemma_lex_leq_from_transitive(a, b, c, i + 1);
        }
    }
}

/// The lexicographic order is reflexive.
pub proof fn lemma_lex_leq_reflexive(a: Seq<char>)
    ensures
        lex_leq(a, a),
{
    lemma_lex_leq_from_reflexive(a, 0);
}

/// The lexicographic order is transitive.
pub proof fn lemma_lex_leq_transitive(a: Seq<char>, b: Seq<char>, c: Seq<char>)
    requires
        lex_leq(a, b),
        lex_leq(b, c),
    ensures
        lex_leq(a, c),
{
    lemma_lex_leq_from_transitive(a, b, c, 0);
}

/// Any two character sequences are comparable.
pub proof fn lemma_lex_leq_connected(a: Seq<char>, b: Seq<char>)
    ensures
        lex_leq(a, b) || lex_leq(b, a),
{
    lemma_lex_leq_from_connected(a, b, 0);
}

/// The lexicographic order on character sequences is a total order.
pub proof fn lemma_lex_leq_total_ordering()
    ensures
        total_ordering(lex_leq_fn()),
{
    let r = lex_leq_fn();
    assert forall|a: Seq<char>| #[trigger] r(a, a) by {
        lemma_lex_leq_from_reflexive(a, 0);
    }
    assert forall|a: Seq<char>, b: Seq<char>| #[trigger] r(a, b) && #[trigger] r(b, a) implies a
        == b by {
        lemma_lex_leq_from_antisymmetric(a, b, 0);
        assert(a =~= b);
    }
    assert forall|a: Seq<char>, b: Seq<char>, c: Seq<char>|
        #[trigger] r(a, b) && #[trigger] r(b, c) implies r(a, c) by {
        lemma_lex_leq_from_transitive(a, b, c, 0);
    }
    assert forall|a: Seq<char>, b: Seq<char>| #[trigger] r(a, b) || #[trigger] r(b, a) by {
        lemma_lex_leq_from_connected(a, b, 0);
    }
}

/// Decides the lexicographic order on two strings.
pub fn str_lex_leq(a: &str, b: &str) -> (r: bool)
    ensures
        r == lex_leq(a@, b@),
{
    let alen: usize = a.unicode_len();
    let blen: usize = b.unicode_len();
    let mut i: usize = 0;
    loop
        invariant
            0 <= i <= alen,
            i <= blen,
            alen == a@.len(),
            blen == b@.len(),
            lex_leq(a@, b@) == lex_leq_from(a@, b@, i as int),
        decreases alen - i,
    {
        if i >= alen {
            return true;
        }
        if i >= blen {
            return false;
        }
        let ca = a.get_char(i);
        let cb = b.get_char(i);
        if (ca as u32) < (cb as u32) {
            return true;
        }
        if (ca as u32) > (cb as u32) {
            return false;
        }
        i = i + 1;
    }
}

/// `a` begins with the prefix `p`.
pub open spec fn starts_with(a: Seq<char>, p: Seq<char>) -> bool {
    p.len() <= a.len() && a.take(p.len() as int) == p
}

/// `a` ends with the suffix `p`.
pub open spec fn ends_with(a: Seq<char>, p: Seq<char>) -> bool {
    p.len() <= a.len() && a.skip(a.len() - p.len()) == p
}

/// Decides whether `s` begins with the prefix `p`.
pub fn str_starts_with(s: &str, p: &str) -> (r: bool)
    ensures
        r == starts_with(s@, p@),
{
    let slen: usize = s.unicode_len();
    let plen: usize = p.unicode_len();
    if plen > slen {
        return false;
    }
    let mut i: usize = 0;
    while i < plen
        invariant
            0 <= i <= plen <= slen,
            slen == s@.len(),
            plen == p@.len(),
            forall|j: int| 0 <= j < i ==> s@[j] == p@[j],
        decreases plen - i,
    {
        let cs = s.get_char(i);
        let cp = p.get_char(i);
        if (cs as u32) != (cp as u32) {
            proof {
                vstd::utf8::char_u32_cast(cs, cs as u32);
                vstd::utf8::char_u32_cast(cp, cp as u32);
                assert(s@.take(plen as int)[i as int] == s@[i as int]);
            }
            return false;
        }
        proof {
            vstd::utf8::char_u32_cast(cs, cs as u32);
            vstd::utf8::char_u32_cast(cp, cp as u32);
        }
        i = i + 1;
    }
    proof {
        assert(s@.take(plen as int) =~= p@);
    }
    true
}

/// Decides whether `s` ends with the suffix `p`.
pub fn str_ends_with(s: &str, p: &str) -> (r: bool)
    ensures
        r == ends_with(s@, p@),
{
    let slen: usize = s.unicode_len();
    let plen: usize = p.unicode_len();
    if plen > slen {
        return false;
    }
    let off: usize = slen - plen;
    let mut i: usize = 0;
    while i < plen
        invariant
            0 <= i <= plen <= slen,
            off == slen - plen,
            slen == s@.len(),
            plen == p@.len(),
            forall|j: int| 0 <= j < i ==> s@[off + j] == p@[j],
        decreases plen - i,
    {
        let cs = s.get_char(off + i);
        let cp = p.get_char(i);
        if (cs as u32) != (cp as u32) {
            proof {
                vstd::utf8::char_u32_cast(cs, cs as u32);
                vstd::utf8::char_u32_cast(cp, cp as u32);
                assert(s@.skip(off as int)[i as int] == s@[off + i]);
            }
            return false;
        }
        proof {
            vstd::utf8::char_u32_cast(cs, cs as u32);
            vstd::utf8::char_u32_cast(cp, cp as u32);
        }
        i = i + 1;
    }
    proof {
        assert(s@.skip(off as int) =~= p@);
    }
    true
}

/// The character for the decimal digit `d`.
pub open spec fn digit_char(d: nat) -> char {
    if d == 0 {
        '0'
    } else if d == 1 {
        '1'
    } else if d == 2 {
        '2'
    } else if d == 3 {
        '3'
    } else if d == 4 {
        '4'
    } else if d == 5 {
        '5'
    } else if d == 6 {
        '6'
    } else if d == 7 {
        '7'
    } else if d == 8 {
        '8'
    } else {
        '9'
    }
}

/// The decimal digits of `n`, most significant first, no leading zeros
/// (a single zero for `n == 0`).
pub open spec fn dec_digits(n: nat) -> Seq<char>
    decreases n,
{
    if n < 10 {
        seq![digit_char(n)]
    } else {
        dec_digits(n / 10).push(digit_char(n % 10))
    }
}

fn digit_str(d: u32) -> (r: &'static str)
    requires
        d < 10,
    ensures
        r@ == seq![digit_char(d as nat)],
{
    if d == 0 {
        proof {
            reveal_strlit("0");
            assert("0"@ =~= seq!['0']);
        }
        "0"
    } else if d == 1 {
        proof {
            reveal_strlit("1");
            assert("1"@ =~= seq!['1']);
        }
        "1"
    } else if d == 2 {
        proof {
            reveal_strlit("2");
            assert("2"@ =~= seq!['2']);
        }
        "2"
    } else if d == 3 {
        proof {
            reveal_strlit("3");
            assert("3"@ =~= seq!['3']);
        }
        "3"
    } else if d == 4 {
        proof {
            reveal_strlit("4");
            assert("4"@ =~= seq!['4']);
        }
        "4"
    } else if d == 5 {
        proof {
            reveal_strlit("5");
            assert("5"@ =~= seq!['5']);
        }
        "5"
    } else if d == 6 {
        proof {
            reveal_strlit("6");
            assert("6"@ =~= seq!['6']);
        }
        "6"
    } else if d == 7 {
        proof {
            reveal_strlit("7");
            assert("7"@ =~= seq!['7']);
        }
        "7"
    } else if d == 8 {
        proof {
            reveal_strlit("8");
            assert("8"@ =~= seq!['8']);
        }
        "8"
    } else {
        proof {
            reveal_strlit("9");
            assert("9"@ =~= seq!['9']);
        }
        "9"
    }
}

/// Formats `n` in decimal.
pub fn format_u32(n: u32) -> (r: String)
    ensures
        r@ == dec_digits(n as nat),
    decreases n,
{
    if n < 10 {
        digit_str(n).to_owned()
    } else {
        let mut s = format_u32(n / 10);
        s.append(digit_str(n % 10));
        proof {
            assert(s@ =~= dec_digits(n as nat));
        }
        s
    }
}

/// `n` in decimal, zero-padded on the left to at least two digits.
pub open spec fn pad2(n: nat) -> Seq<char> {
    if n < 10 {
        seq!['0'] + dec_digits(n)
    } else {
        dec_digits(n)
    }
}

/// Formats `n` zero-padded to at least two digits.
pub fn format_pad2(n: u32) -> (r: String)
    ensures
        r@ == pad2(n as nat),
{
    if n < 10 {
        proof {
            reveal_strlit("0");
            assert("0"@ =~= seq!['0']);
        }
        let mut s = "0".to_owned();
        let t = format_u32(n);
        s.append(t.as_str());
        proof {
            assert(s@ =~= pad2(n as nat));
        }
        s
    } else {
        format_u32(n)
    }
}

/// `n` in decimal, zero-padded on the left to at least four digits.
pub open spec fn pad4(n: nat) -> Seq<char> {
    if n < 10 {
        seq!['0', '0', '0'] + dec_digits(n)
    } else if n < 100 {
        seq!['0', '0'] + dec_digits(n)
    } else if n < 1000 {
        seq!['0'] + dec_digits(n)
    } else {
        dec_digits(n)
    }
}

fn format_pad4(n: u32) -> (r: String)
    ensures
        r@ == pad4(n as nat),
{
    proof {
        reveal_strlit("000");
        reveal_strlit("00");
        reveal_strlit("0");
        assert("000"@ =~= seq!['0', '0', '0']);
        assert("00"@ =~= seq!['0', '0']);
        assert("0"@ =~= seq!['0']);
    }
    let mut s: String = if n < 10 {
        "000".to_owned()
    } else if n < 100 {
        "00".to_owned()
    } else if n < 1000 {
        "0".to_owned()
    } else {
        "".to_owned()
    };
    proof {
        reveal_strlit("");
        assert(""@ =~= Seq::<char>::empty());
    }
    let t = format_u32(n);
    s.append(t.as_str());
    proof {
        assert(s@ =~= pad4(n as nat));
    }
    s
}

/// A year in decimal, zero-padded to at least four digits, with a
/// leading minus sign for years before year zero.
pub open spec fn year_chars(y: int) -> Seq<char> {
    if y < 0 {
        seq!['-'] + pad4((-y) as nat)
    } else {
        pad4(y as nat)
    }
}

/// The timestamp `<year>-<month>-<day>_<hour>_<minute>_<second>`, each
/// component zero-padded to fixed width, so that the lexicographic
/// order of timestamps of one era equals their chronological order.
pub open spec fn timestamp_chars(y: int, mo: nat, d: nat, h: nat, mi: nat, s: nat) -> Seq<char> {
    year_chars(y) + "-"@ + pad2(mo) + "-"@ + pad2(d) + "_"@ + pad2(h) + "_"@ + pad2(mi) + "_"@
        + pad2(s)
}

/// Formats a timestamp for embedding in a generic log file name.
pub fn format_timestamp(y: i32, mo: u32, d: u32, h: u32, mi: u32, s: u32) -> (r: String)
    requires
        mo < 100,
        d < 100,
        h < 100,
        mi < 100,
        s < 100,
    ensures
        r@ == timestamp_chars(y as int, mo as nat, d as nat, h as nat, mi as nat, s as nat),
{
    let mut out: String;
    if y < 0 {
        proof {
            reveal_strlit("-");
            assert("-"@ =~= seq!['-']);
        }
        out = "-".to_owned();
        let m64: i64 = -(y as i64);
        let mag: u32 = m64 as u32;
        let t = format_pad4(mag);
        out.append(t.as_str());
        proof {
            assert(out@ =~= year_chars(y as int));
        }
    } else {
        out = format_pad4(y as u32);
        proof {
            assert(out@ =~= year_chars(y as int));
        }
    }
    let t_mo = format_pad2(mo);
    let t_d = format_pad2(d);
    let t_h = format_pad2(h);
    let t_mi = format_pad2(mi);
    let t_s = format_pad2(s);
    out.append("-");
    out.append(t_mo.as_str());
    out.append("-");
    out.append(t_d.as_str());
    out.append("_");
    out.append(t_h.as_str());
    out.append("_");
    out.append(t_mi.as_str());
    out.append("_");
    out.append(t_s.as_str());
    proof {
        assert(out@ =~= timestamp_chars(
            y as int,
            mo as nat,
            d as nat,
            h as nat,
            mi as nat,
            s as nat,
        ));
    }
    out
}

proof fn lemma_digit_char_code(d: nat)
    requires
        d < 10,
    ensures
        digit_char(d) as u32 == 48 + d,
{
}

proof fn lemma_dec_digits_form2(m: nat)
    requires
        10 <= m < 100,
    ensures
        dec_digits(m) =~= seq![digit_char(m / 10), digit_char(m % 10)],
{
    lemma_multiply_divide_lt(m as int, 10, 10);
    assert(dec_digits(m / 10) =~= seq![digit_char(m / 10)]);
}

proof fn lemma_pad2_form(n: nat)
    requires
        n < 100,
    ensures
        pad2(n) =~= seq![digit_char(n / 10), digit_char(n % 10)],
{
    if n < 10 {
        lemma_basic_div(n as int, 10);
        lemma_small_mod(n, 10);
    } else {
        lemma_dec_digits_form2(n);
    }
}

proof fn lemma_pad2_order(a: nat, b: nat)
    requires
        a < 100,
        b < 100,
    ensures
        lex_leq(pad2(a), pad2(b)) == (a <= b),
        (pad2(a) =~= pad2(b)) == (a == b),
{
    lemma_pad2_form(a);
    lemma_pad2_form(b);
    lemma_multiply_divide_lt(a as int, 10, 10);
    lemma_multiply_divide_lt(b as int, 10, 10);
    lemma_mod_division_less_than_divisor(a as int, 10);
    lemma_mod_division_less_than_divisor(b as int, 10);
    lemma_digit_char_code(a / 10);
    lemma_digit_char_code(a % 10);
    lemma_digit_char_code(b / 10);
    lemma_digit_char_code(b % 10);
    lemma_fundamental_div_mod(a as int, 10);
    lemma_fundamental_div_mod(b as int, 10);
    let pa = pad2(a);
    let pb = pad2(b);
    assert(lex_leq_from(pa, pb, 2));
    assert(lex_leq_from(pa, pb, 1) == (if (pa[1] as u32) < (pb[1] as u32) {
        true
    } else if (pa[1] as u32) > (pb[1] as u32) {
        false
    } else {
        true
    }));
    assert(lex_leq(pa, pb) == lex_leq_from(pa, pb, 0));
    vstd::utf8::char_u32_cast(pa[0], pa[0] as u32);
    vstd::utf8::char_u32_cast(pb[0], pb[0] as u32);
    vstd::utf8::char_u32_cast(pa[1], pa[1] as u32);
    vstd::utf8::char_u32_cast(pb[1], pb[1] as u32);
    if pad2(a) =~= pad2(b) {
        assert(a / 10 == b / 10 && a % 10 == b % 10);
    }
}

proof fn lemma_dec_digits_form3(m: nat)
    requires
        100 <= m < 1000,
    ensures
        dec_digits(m) =~= seq![digit_char(m / 100), digit_char((m / 10) % 10), digit_char(m % 10)],
{
    lemma_multiply_divide_lt(m as int, 10, 100);
    lemma_fundamental_div_mod(m as int, 10);
    lemma_mod_division_less_than_divisor(m as int, 10);
    assert(m / 10 >= 10);
    lemma_dec_digits_form2(m / 10);
    lemma_div_denominator(m as int, 10, 10);
    assert((m / 10) / 10 == m / 100);
}

proof fn lemma_pad4_split(n: nat)
    requires
        n < 10000,
    ensures
        pad4(n) =~= pad2(n / 100) + pad2(n % 100),
        (pad2(n / 100) + pad2(n % 100)).len() == 4,
{
    lemma_multiply_divide_lt(n as int, 100, 100);
    lemma_mod_division_less_than_divisor(n as int, 100);
    lemma_pad2_form(n / 100);
    lemma_pad2_form(n % 100);
    // The right side spelled with digits of n itself.
    lemma_breakdown(n as int, 10, 10);
    lemma_mod_division_less_than_divisor(n as int, 10);
    lemma_mod_division_less_than_divisor((n as int) / 10, 10);
    lemma_fundamental_div_mod_converse_div(
        (n as int) % 100,
        10,
        ((n as int) / 10) % 10,
        (n as int) % 10,
    );
    lemma_fundamental_div_mod_converse_mod(
        (n as int) % 100,
        10,
        ((n as int) / 10) % 10,
        (n as int) % 10,
    );
    lemma_div_denominator(n as int, 100, 10);
    assert((n % 100) / 10 == (n / 10) % 10);
    assert((n % 100) % 10 == n % 10);
    assert((n / 100) / 10 == n / 1000);
    assert(pad2(n / 100) + pad2(n % 100) =~= seq![
        digit_char(n / 1000),
        digit_char((n / 100) % 10),
        digit_char((n / 10) % 10),
        digit_char(n % 10),
    ]);
    lemma_fundamental_div_mod(n as int, 10);
    if n < 10 {
        lemma_basic_div(n as int, 10);
        lemma_basic_div(n as int, 100);
        lemma_basic_div(n as int, 1000);
        lemma_small_mod(n, 10);
        lemma_small_mod(0, 10);
    } else if n < 100 {
        lemma_dec_digits_form2(n);
        lemma_basic_div(n as int, 100);
        lemma_basic_div(n as int, 1000);
        lemma_multiply_divide_lt(n as int, 10, 10);
        lemma_small_mod((n / 10) as nat, 10);
        lemma_small_mod(0, 10);
    } else if n < 1000 {
        lemma_dec_digits_form3(n);
        lemma_basic_div(n as int, 1000);
        lemma_multiply_divide_lt(n as int, 100, 10);
        lemma_small_mod((n / 100) as nat, 10);
    } else {
        // Four digits: peel the last digit off a three-digit prefix.
        lemma_fundamental_div_mod(n as int, 100);
        lemma_mod_division_less_than_divisor(n as int, 100);
        assert(n / 10 >= 100);
        lemma_multiply_divide_lt(n as int, 10, 1000);
        lemma_dec_digits_form3(n / 10);
        lemma_div_denominator(n as int, 10, 100);
        lemma_div_denominator(n as int, 10, 10);
        assert((n / 10) / 100 == n / 1000);
        assert((n / 10) / 10 == n / 100);
        assert(dec_digits(n) =~= seq![
            digit_char(n / 1000),
            digit_char((n / 100) % 10),
            digit_char((n / 10) % 10),
            digit_char(n % 10),
        ]);
    }
}

proof fn lemma_lex_leq_from_shift(p1: Seq<char>, r1: Seq<char>, p2: Seq<char>, r2: Seq<char>, i: int)
    requires
        p1.len() == p2.len(),
        p1.len() <= i,
    ensures
        lex_leq_from(p1 + r1, p2 + r2, i) == lex_leq_from(r1, r2, i - p1.len()),
    decreases (p1 + r1).len() - i,
{
    let a = p1 + r1;
    let b = p2 + r2;
    let j = i - p1.len();
    if i >= a.len() {
        assert(j >= r1.len());
    } else if i >= b.len() {
        assert(j >= r2.len());
        assert(j < r1.len());
    } else {
        assert(a[i] == r1[j]);
        assert(b[i] == r2[j]);
        if a[i] as u32 == b[i] as u32 {
            lemma_lex_leq_from_shift(p1, r1, p2, r2, i + 1);
        }
    }
}

proof fn lemma_lex_leq_from_concat(
    p1: Seq<char>,
    r1: Seq<char>,
    p2: Seq<char>,
    r2: Seq<char>,
    i: int,
)
    requires
        p1.len() == p2.len(),
        0 <= i <= p1.len(),
    ensures
        lex_leq_from(p1 + r1, p2 + r2, i) == (if p1.skip(i) =~= p2.skip(i) {
            lex_leq(r1, r2)
        } else {
            lex_leq_from(p1, p2, i)
        }),
    decreases p1.len() - i,
{
    if i == p1.len() {
        assert(p1.skip(i) =~= p2.skip(i));
        lemma_lex_leq_from_shift(p1, r1, p2, r2, i);
    } else {
        let a = p1 + r1;
        let b = p2 + r2;
        assert(a[i] == p1[i]);
        assert(b[i] == p2[i]);
        assert(i < a.len());
        assert(i < b.len());
        if p1[i] as u32 == p2[i] as u32 {
            vstd::utf8::char_u32_cast(p1[i], p1[i] as u32);
            vstd::utf8::char_u32_cast(p2[i], p2[i] as u32);
            assert(p1[i] == p2[i]);
            lemma_lex_leq_from_concat(p1, r1, p2, r2, i + 1);
            assert((p1.skip(i) =~= p2.skip(i)) == (p1.skip(i + 1) =~= p2.skip(i + 1))) by {
                if p1.skip(i + 1) =~= p2.skip(i + 1) {
                    assert forall|k: int| 0 <= k < p1.skip(i).len() implies p1.skip(i)[k]
                        == p2.skip(i)[k] by {
                        if k > 0 {
                            assert(p1.skip(i)[k] == p1.skip(i + 1)[k - 1]);
                            assert(p2.skip(i)[k] == p2.skip(i + 1)[k - 1]);
                        }
                    }
                }
                if p1.skip(i) =~= p2.skip(i) {
                    assert forall|k: int| 0 <= k < p1.skip(i + 1).len() implies #[trigger] p1.skip(
                        i + 1,
                    )[k] == p2.skip(i + 1)[k] by {
                        assert(p1.skip(i + 1)[k] == p1.skip(i)[k + 1]);
                        assert(p2.skip(i + 1)[k] == p2.skip(i)[k + 1]);
                    }
                }
            }
        } else {
            assert(!(p1.skip(i) =~= p2.skip(i))) by {
                assert(p1.skip(i)[0] == p1[i]);
                assert(p2.skip(i)[0] == p2[i]);
            }
        }
    }
}

proof fn lemma_lex_leq_concat(p1: Seq<char>, r1: Seq<char>, p2: Seq<char>, r2: Seq<char>)
    requires
        p1.len() == p2.len(),
    ensures
        lex_leq(p1 + r1, p2 + r2) == (if p1 =~= p2 {
            lex_leq(r1, r2)
        } else {
            lex_leq(p1, p2)
        }),
{
    lemma_lex_leq_from_concat(p1, r1, p2, r2, 0);
    assert(p1.skip(0) =~= p1);
    assert(p2.skip(0) =~= p2);
    assert((p1.skip(0) =~= p2.skip(0)) == (p1 =~= p2));
}

proof fn lemma_block2_step(x: nat, y: nat, sep: Seq<char>, rest1: Seq<char>, rest2: Seq<char>)
    requires
        x < 100,
        y < 100,
    ensures
        lex_leq(pad2(x) + (sep + rest1), pad2(y) + (sep + rest2)) == (if x == y {
            lex_leq(rest1, rest2)
        } else {
            x < y
        }),
{
    lemma_pad2_form(x);
    lemma_pad2_form(y);
    lemma_pad2_order(x, y);
    lemma_lex_leq_concat(pad2(x), sep + rest1, pad2(y), sep + rest2);
    if pad2(x) =~= pad2(y) {
        lemma_lex_leq_concat(sep, rest1, sep, rest2);
    }
}

proof fn lemma_block4_step(x: nat, y: nat, sep: Seq<char>, rest1: Seq<char>, rest2: Seq<char>)
    requires
        x < 10000,
        y < 10000,
    ensures
        lex_leq(pad4(x) + (sep + rest1), pad4(y) + (sep + rest2)) == (if x == y {
            lex_leq(rest1, rest2)
        } else {
            x < y
        }),
{
    lemma_pad4_split(x);
    lemma_pad4_split(y);
    lemma_pad4_order(x, y);
    lemma_lex_leq_concat(pad4(x), sep + rest1, pad4(y), sep + rest2);
    if pad4(x) =~= pad4(y) {
        lemma_lex_leq_concat(sep, rest1, sep, rest2);
    }
}

proof fn lemma_add_assoc(a: Seq<char>, b: Seq<char>, c: Seq<char>)
    ensures
        (a + b) + c == a + (b + c),
{
    assert((a + b) + c =~= a + (b + c));
}

proof fn lemma_timestamp_assoc(y: int, mo: nat, d: nat, h: nat, mi: nat, s: nat)
    requires
        0 <= y,
    ensures
        timestamp_chars(y, mo, d, h, mi, s) == pad4(y as nat) + ("-"@ + (pad2(mo) + ("-"@ + (pad2(
            d,
        ) + ("_"@ + (pad2(h) + ("_"@ + (pad2(mi) + ("_"@ + pad2(s)))))))))),
{
    let g1 = pad4(y as nat);
    let g2 = "-"@;
    let g3 = pad2(mo);
    let g4 = "-"@;
    let g5 = pad2(d);
    let g6 = "_"@;
    let g7 = pad2(h);
    let g8 = "_"@;
    let g9 = pad2(mi);
    let g10 = "_"@;
    let g11 = pad2(s);
    let l2 = g1 + g2;
    let l3 = l2 + g3;
    let l4 = l3 + g4;
    let l5 = l4 + g5;
    let l6 = l5 + g6;
    let l7 = l6 + g7;
    let l8 = l7 + g8;
    let l9 = l8 + g9;
    let l10 = l9 + g10;
    let r11 = g11;
    let r10 = g10 + r11;
    let r9 = g9 + r10;
    let r8 = g8 + r9;
    let r7 = g7 + r8;
    let r6 = g6 + r7;
    let r5 = g5 + r6;
    let r4 = g4 + r5;
    let r3 = g3 + r4;
    let r2 = g2 + r3;
    assert(timestamp_chars(y, mo, d, h, mi, s) == l10 + g11);
    lemma_add_assoc(l9, g10, r11);
    lemma_add_assoc(l8, g9, r10);
    lemma_add_assoc(l7, g8, r9);
    lemma_add_assoc(l6, g7, r8);
    lemma_add_assoc(l5, g6, r7);
    lemma_add_assoc(l4, g5, r6);
    lemma_add_assoc(l3, g4, r5);
    lemma_add_assoc(l2, g3, r4);
    lemma_add_assoc(g1, g2, r3);
}

/// Chronological order on calendar times, componentwise from the year
/// down to the second.
pub open spec fn chronologically_leq(
    y1: int,
    mo1: nat,
    d1: nat,
    h1: nat,
    mi1: nat,
    s1: nat,
    y2: int,
    mo2: nat,
    d2: nat,
    h2: nat,
    mi2: nat,
    s2: nat,
) -> bool {
    if y1 != y2 {
        y1 < y2
    } else if mo1 != mo2 {
        mo1 < mo2
    } else if d1 != d2 {
        d1 < d2
    } else if h1 != h2 {
        h1 < h2
    } else if mi1 != mi2 {
        mi1 < mi2
    } else {
        s1 <= s2
    }
}

/// File name order equals chronological order: for times whose year
/// formats to exactly four digits, the lexicographic order of two
/// formatted timestamps is exactly the chronological order of the two
/// times. This is what makes the retention cleanup, which removes the
/// lexicographically least names, remove the oldest files.
pub proof fn lemma_timestamp_order_matches_chronology(
    y1: int,
    mo1: nat,
    d1: nat,
    h1: nat,
    mi1: nat,
    s1: nat,
    y2: int,
    mo2: nat,
    d2: nat,
    h2: nat,
    mi2: nat,
    s2: nat,
)
    requires
        0 <= y1 < 10000,
        0 <= y2 < 10000,
        mo1 < 100,
        d1 < 100,
        h1 < 100,
        mi1 < 100,
        s1 < 100,
        mo2 < 100,
        d2 < 100,
        h2 < 100,
        mi2 < 100,
        s2 < 100,
    ensures
        lex_leq(
            timestamp_chars(y1, mo1, d1, h1, mi1, s1),
            timestamp_chars(y2, mo2, d2, h2, mi2, s2),
        ) == chronologically_leq(y1, mo1, d1, h1, mi1, s1, y2, mo2, d2, h2, mi2, s2),
{
    let dash = "-"@;
    let und = "_"@;
    let t1_mi = pad2(mi1) + (und + pad2(s1));
    let t1_h = pad2(h1) + (und + t1_mi);
    let t1_d = pad2(d1) + (und + t1_h);
    let t1_mo = pad2(mo1) + (dash + t1_d);
    let t1 = pad4(y1 as nat) + (dash + t1_mo);
    let t2_mi = pad2(mi2) + (und + pad2(s2));
    let t2_h = pad2(h2) + (und + t2_mi);
    let t2_d = pad2(d2) + (und + t2_h);
    let t2_mo = pad2(mo2) + (dash + t2_d);
    let t2 = pad4(y2 as nat) + (dash + t2_mo);
    lemma_timestamp_assoc(y1, mo1, d1, h1, mi1, s1);
    lemma_timestamp_assoc(y2, mo2, d2, h2, mi2, s2);
    lemma_block4_step(y1 as nat, y2 as nat, dash, t1_mo, t2_mo);
    lemma_block2_step(mo1, mo2, dash, t1_d, t2_d);
    lemma_block2_step(d1, d2, und, t1_h, t2_h);
    lemma_block2_step(h1, h2, und, t1_mi, t2_mi);
    lemma_block2_step(mi1, mi2, und, pad2(s1), pad2(s2));
    lemma_pad2_order(s1, s2);
}

proof fn lemma_pad4_order(a: nat, b: nat)
    requires
        a < 10000,
        b < 10000,
    ensures
        lex_leq(pad4(a), pad4(b)) == (a <= b),
        (pad4(a) =~= pad4(b)) == (a == b),
{
    lemma_pad4_split(a);
    lemma_pad4_split(b);
    lemma_multiply_divide_lt(a as int, 100, 100);
    lemma_multiply_divide_lt(b as int, 100, 100);
    lemma_mod_division_less_than_divisor(a as int, 100);
    lemma_mod_division_less_than_divisor(b as int, 100);
    lemma_pad2_form(a / 100);
    lemma_pad2_form(a % 100);
    lemma_pad2_form(b / 100);
    lemma_pad2_form(b % 100);
    lemma_fundamental_div_mod(a as int, 100);
    lemma_fundamental_div_mod(b as int, 100);
    lemma_pad2_order(a / 100, b / 100);
    lemma_pad2_order(a % 100, b % 100);
    lemma_lex_leq_concat(pad2(a / 100), pad2(a % 100), pad2(b / 100), pad2(b % 100));
    assert(pad4(a) == pad2(a / 100) + pad2(a % 100));
    assert(pad4(b) == pad2(b / 100) + pad2(b % 100));
    if pad4(a) =~= pad4(b) {
        assert(pad2(a / 100) =~= pad2(b / 100)) by {
            assert forall|k: int| 0 <= k < 2 implies #[trigger] pad2(a / 100)[k] == pad2(
                b / 100,
            )[k] by {
                assert((pad2(a / 100) + pad2(a % 100))[k] == pad2(a / 100)[k]);
                assert((pad2(b / 100) + pad2(b % 100))[k] == pad2(b / 100)[k]);
            }
        }
        assert(pad2(a % 100) =~= pad2(b % 100)) by {
            assert forall|k: int| 0 <= k < 2 implies #[trigger] pad2(a % 100)[k] == pad2(
                b % 100,
            )[k] by {
                assert((pad2(a / 100) + pad2(a % 100))[k + 2] == pad2(a % 100)[k]);
                assert((pad2(b / 100) + pad2(b % 100))[k + 2] == pad2(b % 100)[k]);
            }
        }
        assert(a == b);
    }
}

} // verus!
