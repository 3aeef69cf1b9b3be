//! Decimal-digit arithmetic shared by the barcode types: powers of ten,
//! digit sequences of a magnitude, parsing a digit string into a magnitude,
//! and rendering a magnitude as a zero-padded digit string.

use vstd::prelude::*;

verus! {

/// `10^e` as a mathematical natural.
pub open spec fn pow10(e: nat) -> nat
    decreases e,
{
    if e == 0 {
        1
    } else {
        10 * pow10((e - 1) as nat)
    }
}

/// A decimal digit character.
pub open spec fn is_digit(c: char) -> bool {
    '0' <= c && c <= '9'
}

/// The numeric value of a decimal digit character.
pub open spec fn digit_val(c: char) -> nat {
    (c as int - '0' as int) as nat
}

/// The character for a single decimal digit value.
pub open spec fn char_of_digit(d: nat) -> char {
    if d == 0 {
        '0'
    } else if d == 1 {
        '1'
    } else if d == 2 {
        '2'
    } else if d == 3 {
        '3'
    } else if d == 4 {
        '4'
    } else if d == 5 {
        '5'
    } else if d == 6 {
        '6'
    } else if d == 7 {
        '7'
    } else if d == 8 {
        '8'
    } else {
        '9'
    }
}

/// Every character of the string is a decimal digit.
pub open spec fn all_digits(s: Seq<char>) -> bool {
    forall|i: int| 0 <= i < s.len() ==> is_digit(#[trigger] s[i])
}

/// The magnitude denoted by a decimal digit string.
pub open spec fn str_num(s: Seq<char>) -> nat
    decreases s.len(),
{
    if s.len() == 0 {
        0
    } else {
        str_num(s.drop_last()) * 10 + digit_val(s.last())
    }
}

/// The low `w` decimal digits of `n`, most significant first.
pub open spec fn digits_of(n: nat, w: nat) -> Seq<nat>
    decreases w,
{
    if w == 0 {
        Seq::empty()
    } else {
        digits_of(n / 10, (w - 1) as nat).push(n % 10)
    }
}

/// The zero-padded `w`-character rendering of the low `w` decimal digits of `n`.
pub open spec fn render_digits(n: nat, w: nat) -> Seq<char>
    decreases w,
{
    if w == 0 {
        Seq::empty()
    } else {
        render_digits(n / 10, (w - 1) as nat).push(char_of_digit(n % 10))
    }
}

/// Round trip one way: a digit character survives value-then-character.
pub proof fn lemma_char_of_digit_val(c: char)
    requires
        is_digit(c),
    ensures
        char_of_digit(digit_val(c)) == c,
{
}

/// Dropping the last digit of a magnitude that fits `w + 1` digits leaves
/// one that fits `w` digits.
pub proof fn lemma_div10_bound(n: nat, w: nat)
    requires
        n < pow10(w + 1),
    ensures
        n / 10 < pow10(w),
{
    if n / 10 >= pow10(w) {
        assert(n >= 10 * (n / 10)) by {
            vstd::arithmetic::div_mod::lemma_fundamental_div_mod(n as int, 10);
        }
        assert(10 * (n / 10) >= 10 * pow10(w)) by (nonlinear_arith)
            requires n / 10 >= pow10(w);
    }
}

/// A digit string of length `w` denotes a magnitude below `10^w`.
pub proof fn lemma_str_num_bound(s: Seq<char>)
    requires
        all_digits(s),
    ensures
        str_num(s) < pow10(s.len()),
    decreases s.len(),
{
    if s.len() > 0 {
        assert(all_digits(s.drop_last()));
        lemma_str_num_bound(s.drop_last());
        assert(digit_val(s.last()) <= 9);
    }
}

/// The rendering of a magnitude consists of digit characters only.
pub proof fn lemma_render_all_digits(n: nat, w: nat)
    ensures
        all_digits(render_digits(n, w)),
        render_digits(n, w).len() == w,
    decreases w,
{
    if w > 0 {
        lemma_render_all_digits(n / 10, (w - 1) as nat);
    }
}

/// Rendering a magnitude and reading the digit string back yields the
/// magnitude, whenever the magnitude fits the width.
pub proof fn lemma_str_num_render(n: nat, w: nat)
    requires
        n < pow10(w),
    ensures
        str_num(render_digits(n, w)) == n,
    decreases w,
{
    if w == 0 {
        assert(n == 0);
    } else {
        let s = render_digits(n, w);
        lemma_render_all_digits(n / 10, (w - 1) as nat);
        assert(s.drop_last() =~= render_digits(n / 10, (w - 1) as nat));
        vstd::arithmetic::div_mod::lemma_fundamental_div_mod(n as int, 10);
        lemma_div10_bound(n, (w - 1) as nat);
        lemma_str_num_render(n / 10, (w - 1) as nat);
        assert(digit_val(char_of_digit(n % 10)) == n % 10);
    }
}

/// Reading a digit string and rendering the magnitude back at the same
/// width reproduces the string exactly.
pub proof fn lemma_render_str_num(s: Seq<char>)
    requires
        all_digits(s),
    ensures
        render_digits(str_num(s), s.len()) == s,
    decreases s.len(),
{
    if s.len() > 0 {
        let n = str_num(s);
        let head = s.drop_last();
        let d = digit_val(s.last());
        assert(all_digits(head));
        lemma_render_str_num(head);
        assert(n == str_num(head) * 10 + d);
        assert(n % 10 == d && n / 10 == str_num(head)) by {
            vstd::arithmetic::div_mod::lemma_fundamental_div_mod_converse(
                n as int, 10, str_num(head) as int, d as int);
        }
        lemma_char_of_digit_val(s.last());
        assert(render_digits(n, s.len()) =~= s);
    }
}

/// A magnitude that fits `w` digits renders at width `w + 1` with a
/// leading zero in front of its `w`-wide rendering.
pub proof fn lemma_render_leading_zero(n: nat, w: nat)
    requires
        n < pow10(w),
    ensures
        render_digits(n, w + 1) == seq!['0'] + render_digits(n, w),
    decreases w,
{
    if w == 0 {
        assert(n == 0);
        assert(render_digits(0, 1) =~= seq!['0'] + render_digits(0, 0));
    } else {
        lemma_div10_bound(n, (w - 1) as nat);
        lemma_render_leading_zero(n / 10, (w - 1) as nat);
        assert(render_digits(n, w + 1) =~= seq!['0'] + render_digits(n, w));
    }
}

/// Same fact for the digit-value sequence.
pub proof fn lemma_digits_leading_zero(n: nat, w: nat)
    requires
        n < pow10(w),
    ensures
        digits_of(n, w + 1) == seq![0nat] + digits_of(n, w),
    decreases w,
{
    if w == 0 {
        assert(n == 0);
        assert(digits_of(0, 1) =~= seq![0nat] + digits_of(0, 0));
    } else {
        lemma_div10_bound(n, (w - 1) as nat);
        lemma_digits_leading_zero(n / 10, (w - 1) as nat);
        assert(digits_of(n, w + 1) =~= seq![0nat] + digits_of(n, w));
    }
}

/// The single-character string for a decimal digit value.
pub fn digit_str(d: u8) -> (r: &'static str)
    requires
        d < 10,
    ensures
        r@ == seq![char_of_digit(d as nat)],
{
    let r: &'static str = if d == 0 {
        "0"
    } else if d == 1 {
        "1"
    } else if d == 2 {
        "2"
    } else if d == 3 {
        "3"
    } else if d == 4 {
        "4"
    } else if d == 5 {
        "5"
    } else if d == 6 {
        "6"
    } else if d == 7 {
        "7"
    } else if d == 8 {
        "8"
    } else {
        "9"
    };
    proof {
        reveal_strlit("0");
        reveal_strlit("1");
        reveal_strlit("2");
        reveal_strlit("3");
        reveal_strlit("4");
        reveal_strlit("5");
        reveal_strlit("6");
        reveal_strlit("7");
        reveal_strlit("8");
        reveal_strlit("9");
        assert(r@ =~= seq![char_of_digit(d as nat)]);
    }
    r
}

/// Renders the low `width` decimal digits of `n`, zero-padded to exactly
/// `width` characters.
pub fn render_decimal(n: u64, width: usize) -> (r: String)
    ensures
        r@ == render_digits(n as nat, width as nat),
    decreases width,
{
    if width == 0 {
        String::new()
    } else {
        let prefix = render_decimal(n / 10, width - 1);
        let r = prefix.concat(digit_str((n % 10) as u8));
        proof {
            assert(r@ =~= render_digits(n as nat, width as nat));
        }
        r
    }
}

/// Parses a string of decimal digits into its magnitude; yields nothing
/// exactly when some character is not a decimal digit.
pub fn parse_decimal(s: &str) -> (r: Option<u64>)
    requires
        s@.len() <= 19,
    ensures
        r is Some <==> all_digits(s@),
        r matches Some(v) ==> v == str_num(s@),
{
    let len = s.unicode_len();
    let mut acc: u64 = 0;
    let mut i: usize = 0;
    proof {
        assert(s@.take(0) =~= Seq::<char>::empty());
    }
    while i < len
        invariant
            0 <= i <= len,
            len == s@.len() <= 19,
            all_digits(s@.take(i as int)),
            acc == str_num(s@.take(i as int)),
            acc < pow10(i as nat),
        decreases len - i,
    {
        let c = s.get_char(i);
        if c < '0' || c > '9' {
            proof {
                assert(!is_digit(s@[i as int]));
            }
            return None;
        }
        let d: u64 = (c as u32 - 48) as u64;
        proof {
            assert(s@.take(i + 1).drop_last() =~= s@.take(i as int));
            assert(s@.take(i + 1).last() == s@[i as int]);
            assert(d == digit_val(s@[i as int]));
            lemma_str_num_bound(s@.take(i + 1));
            lemma_pow10_values();
            assert(pow10((i + 1) as nat) <= pow10(19)) by {
                lemma_pow10_le((i + 1) as nat, 19);
            }
        }
        acc = acc * 10 + d;
        i = i + 1;
    }
    proof {
        assert(s@.take(len as int) =~= s@);
    }
    Some(acc)
}

/// Mod-10 weighted sum of a digit sequence: the digit at even zero-based
/// position counts `we` times, the digit at odd position `wo` times.
pub open spec fn weighted_sum(ds: Seq<nat>, we: nat, wo: nat) -> nat
    decreases ds.len(),
{
    if ds.len() == 0 {
        0
    } else {
        weighted_sum(ds.drop_last(), we, wo) + (
        if (ds.len() - 1) % 2 == 0 {
            we
        } else {
            wo
        }) * ds.last()
    }
}

/// The check digit demanded by a weighted sum: zero when the sum is a
/// multiple of ten, else the distance to the next multiple of ten.
pub open spec fn check_from_sum(sum: nat) -> nat {
    if sum % 10 == 0 {
        0
    } else {
        (10 - sum % 10) as nat
    }
}

/// Prepending a zero digit shifts every position by one, so the two
/// alternating weightings trade places and the sum is unchanged.
pub proof fn lemma_weighted_sum_prepend_zero(ds: Seq<nat>, we: nat, wo: nat)
    ensures
        weighted_sum(seq![0nat] + ds, we, wo) == weighted_sum(ds, wo, we),
    decreases ds.len(),
{
    if ds.len() == 0 {
        let zds = seq![0nat] + ds;
        assert(zds.len() == 1);
        assert(zds.last() == 0);
        assert(zds.drop_last() =~= Seq::<nat>::empty());
        let w1: nat = if (zds.len() - 1) % 2 == 0 { we } else { wo };
        assert(weighted_sum(zds, we, wo)
            == weighted_sum(zds.drop_last(), we, wo) + w1 * zds.last());
        assert(w1 * zds.last() == 0);
        assert(weighted_sum(ds, wo, we) == 0);
    } else {
        let zds = seq![0nat] + ds;
        lemma_weighted_sum_prepend_zero(ds.drop_last(), we, wo);
        assert(zds.drop_last() =~= seq![0nat] + ds.drop_last());
        assert(zds.last() == ds.last());
        assert(zds.len() == ds.len() + 1);
        let w1: nat = if (zds.len() - 1) % 2 == 0 { we } else { wo };
        let w2: nat = if (ds.len() - 1) % 2 == 0 { wo } else { we };
        assert(weighted_sum(zds, we, wo)
            == weighted_sum(zds.drop_last(), we, wo) + w1 * zds.last());
        assert(weighted_sum(ds, wo, we)
            == weighted_sum(ds.drop_last(), wo, we) + w2 * ds.last());
        assert(w1 == w2);
    }
}

/// All digit values of a magnitude are single digits.
pub proof fn lemma_digits_of_bounded(n: nat, w: nat)
    ensures
        digits_of(n, w).len() == w,
        forall|i: int| 0 <= i < w ==> #[trigger] digits_of(n, w)[i] <= 9,
    decreases w,
{
    if w > 0 {
        lemma_digits_of_bounded(n / 10, (w - 1) as nat);
        let ds = digits_of(n, w);
        assert forall|i: int| 0 <= i < w implies #[trigger] ds[i] <= 9 by {
            if i < w - 1 {
                assert(ds[i] == digits_of(n / 10, (w - 1) as nat)[i]);
            }
        }
    }
}

/// Computes the weighted sum of the low `k` decimal digits of `m`.
pub fn weighted_sum_of(m: u64, k: usize, we: u64, wo: u64) -> (r: u64)
    requires
        k <= 19,
        we <= 9,
        wo <= 9,
    ensures
        r == weighted_sum(digits_of(m as nat, k as nat), we as nat, wo as nat),
        r <= 81 * k,
    decreases k,
{
    if k == 0 {
        0
    } else {
        let w: u64 = if (k - 1) % 2 == 0 { we } else { wo };
        let rest = weighted_sum_of(m / 10, k - 1, we, wo);
        let d: u64 = m % 10;
        proof {
            lemma_digits_of_bounded(m as nat, k as nat);
            assert(digits_of(m as nat, k as nat).drop_last()
                =~= digits_of((m / 10) as nat, (k - 1) as nat));
            assert(digits_of(m as nat, k as nat).last() == (m as nat) % 10);
            assert(w * d <= 81) by (nonlinear_arith)
                requires w <= 9, d <= 9;
        }
        rest + w * d
    }
}

/// Turns a weighted sum into its mod-10 check digit.
pub fn check_digit_from_sum(sum: u64) -> (r: u8)
    ensures
        r == check_from_sum(sum as nat),
{
    let m = sum % 10;
    if m != 0 {
        (10 - m) as u8
    } else {
        0
    }
}

/// The concrete powers of ten that the barcode widths need.
pub proof fn lemma_pow10_values()
    ensures
        pow10(4) == 10000,
        pow10(5) == 100000,
        pow10(11) == 100000000000,
        pow10(12) == 1000000000000,
        pow10(13) == 10000000000000,
        pow10(19) == 10000000000000000000,
{
    reveal_with_fuel(pow10, 20);
}

/// `pow10` is monotone in the exponent.
pub proof fn lemma_pow10_le(a: nat, b: nat)
    requires
        a <= b,
    ensures
        pow10(a) <= pow10(b),
        pow10(a) >= 1,
    decreases b,
{
    if b > 0 {
        if a == b {
            lemma_pow10_le((a - 1) as nat, (b - 1) as nat);
        } else {
            lemma_pow10_le(a, (b - 1) as nat);
        }
    }
}

} // verus!
