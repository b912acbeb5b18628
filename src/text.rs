//! Text forms used on the exchange interface: decimal rendering of integers and
//! fixed-point values, and the base asset of a trading pair.

use vstd::prelude::*;
use vstd::string::{StrSliceExecFns, StringExecFns};
use crate::decimal::SCALE;

verus! {

/// Number of fractional digits in a rendered fixed-point value.
pub const FRACTION_DIGITS: u64 = 8;

/// The ASCII character of a decimal digit.
pub open spec fn digit_char(d: int) -> char {
    if d == 0 { '0' }
    else if d == 1 { '1' }
    else if d == 2 { '2' }
    else if d == 3 { '3' }
    else if d == 4 { '4' }
    else if d == 5 { '5' }
    else if d == 6 { '6' }
    else if d == 7 { '7' }
    else if d == 8 { '8' }
    else { '9' }
}

/// Decimal digits of `n`, most significant first, without leading zeros.
pub open spec fn digits(n: nat) -> Seq<char>
    decreases n,
{
    if n < 10 {
        seq![digit_char(n as int)]
    } else {
        digits(n / 10) + seq![digit_char((n % 10) as int)]
    }
}

/// The last `width` decimal digits of `n`, zero-padded on the left.
pub open spec fn padded_digits(n: nat, width: nat) -> Seq<char>
    decreases width,
{
    if width == 0 {
        seq![]
    } else {
        padded_digits(n / 10, (width - 1) as nat) + seq![digit_char((n % 10) as int)]
    }
}

/// A fixed-point value as text with all eight fractional digits: `84.00000000`.
pub open spec fn decimal_text(v: nat) -> Seq<char> {
    digits(v / (SCALE as nat)) + seq!['.'] + padded_digits(v % (SCALE as nat), FRACTION_DIGITS as nat)
}

/// `v` (in `1 / SCALE` units) rounded to the nearest multiple of `unit`,
/// halves rounding up, counted in `unit`s.
pub open spec fn rounded_units(v: nat, unit: nat) -> nat {
    if (v % unit) * 2 >= unit {
        v / unit + 1
    } else {
        v / unit
    }
}

/// A count `n` of `1 / 10^places` units as text with `places` fractional digits.
pub open spec fn fixed_text(n: nat, per_whole: nat, places: nat) -> Seq<char> {
    digits(n / per_whole) + seq!['.'] + padded_digits(n % per_whole, places)
}

/// A price as sent in an order: rounded to the nearest hundredth, two decimals (`84.39`).
pub open spec fn price_text(v: nat) -> Seq<char> {
    fixed_text(rounded_units(v, 1_000_000), 100, 2)
}

/// A quantity as sent in an order: rounded to six decimals (`0.120000`).
pub open spec fn quantity_text(v: nat) -> Seq<char> {
    fixed_text(rounded_units(v, 100), 1_000_000, 6)
}

fn digit_str(d: u64) -> (r: &'static str)
    requires
        d < 10,
    ensures
        r@ == seq![digit_char(d as int)],
{
    proof {
        reveal_strlit("0");
        reveal_strlit("1");
        reveal_strlit("2");
        reveal_strlit("3");
        reveal_strlit("4");
        reveal_strlit("5");
        reveal_strlit("6");
        reveal_strlit("7");
        reveal_strlit("8");
        reveal_strlit("9");
    }
    if d == 0 { "0" }
    else if d == 1 { "1" }
    else if d == 2 { "2" }
    else if d == 3 { "3" }
    else if d == 4 { "4" }
    else if d == 5 { "5" }
    else if d == 6 { "6" }
    else if d == 7 { "7" }
    else if d == 8 { "8" }
    else { "9" }
}

fn push_digits(s: &mut String, n: u64)
    ensures
        final(s)@ == old(s)@ + digits(n as nat),
    decreases n,
{
    if n >= 10 {
        push_digits(s, n / 10);
    }
    s.append(digit_str(n % 10));
}

fn push_padded(s: &mut String, n: u64, width: u64)
    ensures
        final(s)@ == old(s)@ + padded_digits(n as nat, width as nat),
    decreases width,
{
    if width > 0 {
        push_padded(s, n / 10, width - 1);
        s.append(digit_str(n % 10));
    }
}

/// Renders an integer in decimal.
pub fn format_integer(n: u64) -> (r: String)
    ensures
        r@ == digits(n as nat),
{
    let mut s = String::new();
    push_digits(&mut s, n);
    s
}

fn format_rounded(v: u64, unit: u64, per_whole: u64, places: u64) -> (r: String)
    requires
        unit > 1,
        per_whole > 0,
    ensures
        r@ == fixed_text(rounded_units(v as nat, unit as nat), per_whole as nat, places as nat),
{
    let q = v / unit;
    proof {
        vstd::arithmetic::div_mod::lemma_div_is_ordered_by_denominator(v as int, 2, unit as int);
    }
    let n = if (v % unit) >= unit - (v % unit) {
        q + 1
    } else {
        q
    };
    assert(n as nat == rounded_units(v as nat, unit as nat));
    let mut s = String::new();
    push_digits(&mut s, n / per_whole);
    proof {
        reveal_strlit(".");
    }
    s.append(".");
    push_padded(&mut s, n % per_whole, places);
    s
}

/// Renders a price for an order: rounded to the nearest hundredth, two decimals.
pub fn format_price(v: u64) -> (r: String)
    ensures
        r@ == price_text(v as nat),
{
    format_rounded(v, 1_000_000, 100, 2)
}

/// Renders a quantity for an order: rounded to six decimals.
pub fn format_quantity(v: u64) -> (r: String)
    ensures
        r@ == quantity_text(v as nat),
{
    format_rounded(v, 100, 1_000_000, 6)
}

/// Renders a fixed-point value with eight fractional digits.
pub fn format_decimal(v: u64) -> (r: String)
    ensures
        r@ == decimal_text(v as nat),
{
    let mut s = String::new();
    push_digits(&mut s, v / SCALE);
    proof {
        reveal_strlit(".");
    }
    s.append(".");
    push_padded(&mut s, v % SCALE, FRACTION_DIGITS);
    s
}


/// `c` is an ASCII decimal digit.
pub open spec fn is_digit(c: char) -> bool {
    '0' <= c && c <= '9'
}

/// Every character of `s` is a decimal digit.
pub open spec fn all_digits(s: Seq<char>) -> bool {
    forall|i: int| 0 <= i < s.len() ==> is_digit(#[trigger] s[i])
}

/// The number that a string of decimal digits spells (zero when empty).
pub open spec fn digits_value(s: Seq<char>) -> int
    decreases s.len(),
{
    if s.len() == 0 {
        0
    } else {
        digits_value(s.drop_last()) * 10 + (s.last() as int - '0' as int)
    }
}

/// `10` raised to `n`.
pub open spec fn pow10(n: nat) -> int
    decreases n,
{
    if n == 0 {
        1
    } else {
        10 * pow10((n - 1) as nat)
    }
}

/// Index of the first `.` in `s`, or its length when there is none.
pub open spec fn dot_index(s: Seq<char>) -> int
    decreases s.len(),
{
    if s.len() == 0 {
        0
    } else if s[0] == '.' {
        0
    } else {
        1 + dot_index(s.drop_first())
    }
}

/// The fixed-point value of a decimal string: one or more digits, optionally
/// followed by `.` and at most eight digits; `None` for any other string or a
/// value beyond `u64`.
pub open spec fn decimal_value(s: Seq<char>) -> Option<u64> {
    let d = dot_index(s);
    let whole = s.subrange(0, d);
    let frac = if d < s.len() { s.subrange(d + 1, s.len() as int) } else { seq![] };
    let v = digits_value(whole) * SCALE + digits_value(frac) * pow10(
        (FRACTION_DIGITS - frac.len()) as nat,
    );
    if whole.len() > 0 && all_digits(whole) && all_digits(frac) && frac.len() <= FRACTION_DIGITS
        && v <= u64::MAX {
        Some(v as u64)
    } else {
        None
    }
}

/// The value of a string of one or more decimal digits; `None` for any other
/// string or a value beyond `u64`.
pub open spec fn unsigned_value(s: Seq<char>) -> Option<u64> {
    if s.len() > 0 && all_digits(s) && digits_value(s) <= u64::MAX {
        Some(digits_value(s) as u64)
    } else {
        None
    }
}

proof fn lemma_digits_value_nonneg(s: Seq<char>)
    requires
        all_digits(s),
    ensures
        digits_value(s) >= 0,
    decreases s.len(),
{
    if s.len() > 0 {
        lemma_digits_value_nonneg(s.drop_last());
    }
}

proof fn lemma_dot_index(s: Seq<char>)
    ensures
        0 <= dot_index(s) <= s.len(),
        dot_index(s) < s.len() ==> s[dot_index(s)] == '.',
        forall|i: int| 0 <= i < dot_index(s) ==> s[i] != '.',
    decreases s.len(),
{
    if s.len() > 0 && s[0] != '.' {
        lemma_dot_index(s.drop_first());
        assert forall|i: int| 0 <= i < dot_index(s) implies s[i] != '.' by {
            if i > 0 {
                assert(s[i] == s.drop_first()[i - 1]);
            }
        }
    }
}

/// Reads the digits of `s` in `[from, to)`. Returns the value, or `None` when
/// a character is not a digit; the flag is set when the value exceeds `u64`.
fn read_digits(s: &str, from: usize, to: usize) -> (r: Option<(u64, bool)>)
    requires
        from <= to <= s@.len(),
    ensures
        r is None <==> !all_digits(s@.subrange(from as int, to as int)),
        r matches Some((v, big)) ==> {
            &&& big <==> digits_value(s@.subrange(from as int, to as int)) > u64::MAX
            &&& !big ==> v == digits_value(s@.subrange(from as int, to as int))
        },
{
    let mut v: u64 = 0;
    let mut big = false;
    let mut i: usize = from;
    while i < to
        invariant
            from <= i <= to <= s@.len(),
            all_digits(s@.subrange(from as int, i as int)),
            big <==> digits_value(s@.subrange(from as int, i as int)) > u64::MAX,
            !big ==> v == digits_value(s@.subrange(from as int, i as int)),
        decreases to - i,
    {
        let c = s.get_char(i);
        let ghost prefix = s@.subrange(from as int, i as int);
        let ghost next = s@.subrange(from as int, i + 1);
        assert(next.drop_last() == prefix);
        assert(next.last() == c);
        if !('0' <= c && c <= '9') {
            assert(!is_digit(next[i - from]));
            proof {
                if all_digits(s@.subrange(from as int, to as int)) {
                    assert(s@.subrange(from as int, to as int)[i - from] == c);
                }
            }
            return None;
        }
        let d = (c as u32 - '0' as u32) as u64;
        proof {
            lemma_digits_value_nonneg(prefix);
            assert(digits_value(next) == digits_value(prefix) * 10 + d);
        }
        if !big {
            if v > (u64::MAX - d) / 10 {
                big = true;
                assert(digits_value(prefix) * 10 + d > u64::MAX) by (nonlinear_arith)
                    requires
                        v > (u64::MAX - d) / 10,
                        v == digits_value(prefix),
                        0 <= d <= 9,
                ;
            } else {
                assert(v * 10 + d <= u64::MAX) by (nonlinear_arith)
                    requires
                        v <= (u64::MAX - d) / 10,
                        0 <= d <= 9,
                ;
                v = v * 10 + d;
            }
        } else {
            assert(digits_value(prefix) * 10 + d > u64::MAX) by (nonlinear_arith)
                requires
                    digits_value(prefix) > u64::MAX,
                    0 <= d <= 9,
            ;
        }
        i = i + 1;
    }
    Some((v, big))
}

/// Parses a string of one or more decimal digits.
pub fn parse_unsigned(s: &str) -> (r: Option<u64>)
    ensures
        r == unsigned_value(s@),
{
    let n = s.unicode_len();
    assert(s@.subrange(0, n as int) == s@);
    if n == 0 {
        return None;
    }
    match read_digits(s, 0, n) {
        Some((v, false)) => Some(v),
        _ => None,
    }
}

/// Parses a decimal such as `80.00000000` into fixed-point units: one or more
/// digits, optionally followed by `.` and at most eight digits.
pub fn parse_decimal(s: &str) -> (r: Option<u64>)
    ensures
        r == decimal_value(s@),
{
    let n = s.unicode_len();
    let mut d: usize = 0;
    proof {
        lemma_dot_index(s@);
    }
    while d < n && s.get_char(d) != '.'
        invariant
            n == s@.len(),
            d <= dot_index(s@),
            0 <= dot_index(s@) <= n,
            dot_index(s@) < n ==> s@[dot_index(s@)] == '.',
            forall|i: int| 0 <= i < dot_index(s@) ==> s@[i] != '.',
        decreases n - d,
    {
        d = d + 1;
    }
    assert(d == dot_index(s@));
    let ghost whole = s@.subrange(0, d as int);
    let ghost frac = if d < n { s@.subrange(d + 1, n as int) } else { seq![] };
    if d == 0 {
        return None;
    }
    let w = match read_digits(s, 0, d) {
        Some((w, false)) => w,
        Some((_, true)) => {
            proof {
                if all_digits(frac) {
                    lemma_digits_value_nonneg(frac);
                    lemma_pow10_pos((FRACTION_DIGITS - frac.len()) as nat);
                    assert(digits_value(frac) * pow10((FRACTION_DIGITS - frac.len()) as nat) >= 0)
                        by (nonlinear_arith)
                        requires
                            digits_value(frac) >= 0,
                            pow10((FRACTION_DIGITS - frac.len()) as nat) >= 1,
                    ;
                }
            }
            return None;
        },
        None => return None,
    };
    let (f, flen) = if d < n {
        if n - (d + 1) > 8 {
            return None;
        }
        match read_digits(s, d + 1, n) {
            Some((f, _)) => (f, n - (d + 1)),
            None => return None,
        }
    } else {
        assert(frac == Seq::<char>::empty());
        (0u64, 0usize)
    };
    proof {
        assert(frac.len() == flen);
        if flen > 0 {
            lemma_digits_below_pow10(frac);
            lemma_pow10_small(flen as nat);
            assert(f == digits_value(frac));
        }
        lemma_pow10_pos((FRACTION_DIGITS - flen) as nat);
        assert(w == digits_value(whole));
        assert(f == digits_value(frac));
    }
    let mut scaled_f: u64 = f;
    let mut k: usize = flen;
    assert(f < pow10(flen as nat)) by {
        if flen == 0 {
            assert(frac.len() == 0);
        }
    }
    while k < 8
        invariant
            flen <= k <= 8,
            scaled_f as int == f * pow10((k - flen) as nat),
            f < pow10(flen as nat),
            scaled_f < pow10(k as nat),
        decreases 8 - k,
    {
        proof {
            lemma_pow10_pos((k - flen) as nat);
            assert(pow10((k + 1 - flen) as nat) == 10 * pow10((k - flen) as nat));
            assert(pow10((k + 1) as nat) == 10 * pow10(k as nat));
            lemma_pow10_small(k as nat);
        }
        scaled_f = scaled_f * 10;
        k = k + 1;
        assert(scaled_f as int == f * pow10((k - flen) as nat)) by (nonlinear_arith)
            requires
                scaled_f == (f * pow10((k - 1 - flen) as nat)) * 10,
                pow10((k - flen) as nat) == 10 * pow10((k - 1 - flen) as nat),
        ;
    }
    assert(pow10(8) == 100_000_000) by {
        reveal_with_fuel(pow10, 9);
    }
    assert(scaled_f == digits_value(frac) * pow10((FRACTION_DIGITS - frac.len()) as nat));
    if w > (u64::MAX - scaled_f) / SCALE {
        assert(w * SCALE + scaled_f > u64::MAX) by (nonlinear_arith)
            requires
                w > (u64::MAX - scaled_f) as int / (SCALE as int),
                0 <= scaled_f < SCALE,
        ;
        return None;
    }
    assert(w * SCALE + scaled_f <= u64::MAX) by (nonlinear_arith)
        requires
            w <= (u64::MAX - scaled_f) as int / (SCALE as int),
            0 <= scaled_f,
    ;
    Some(w * SCALE + scaled_f)
}

proof fn lemma_pow10_pos(n: nat)
    ensures
        pow10(n) >= 1,
    decreases n,
{
    if n > 0 {
        lemma_pow10_pos((n - 1) as nat);
    }
}

proof fn lemma_pow10_mono(n: nat, m: nat)
    requires
        n <= m,
    ensures
        pow10(n) <= pow10(m),
    decreases m,
{
    if n < m {
        lemma_pow10_mono(n, (m - 1) as nat);
        lemma_pow10_pos((m - 1) as nat);
    }
}

proof fn lemma_pow10_small(n: nat)
    requires
        n <= 8,
    ensures
        pow10(n) <= 100_000_000,
{
    lemma_pow10_mono(n, 8);
    assert(pow10(8) == 100_000_000) by {
        reveal_with_fuel(pow10, 9);
    }
}

proof fn lemma_digits_below_pow10(s: Seq<char>)
    requires
        all_digits(s),
    ensures
        0 <= digits_value(s) < pow10(s.len()),
    decreases s.len(),
{
    if s.len() > 0 {
        let p = s.drop_last();
        assert(all_digits(p)) by {
            assert forall|i: int| 0 <= i < p.len() implies is_digit(#[trigger] p[i]) by {
                assert(p[i] == s[i]);
            }
        }
        lemma_digits_below_pow10(p);
        assert(is_digit(s[s.len() - 1]));
        let d = s.last() as int - '0' as int;
        assert(digits_value(s) < pow10(s.len())) by (nonlinear_arith)
            requires
                digits_value(s) == digits_value(p) * 10 + d,
                0 <= d <= 9,
                digits_value(p) < pow10(p.len()),
                digits_value(p) >= 0,
                pow10(s.len()) == 10 * pow10(p.len()),
        ;
    }
}

/// Compares two strings character by character.
pub fn text_equals(a: &str, b: &str) -> (r: bool)
    ensures
        r == (a@ == b@),
{
    let n = a.unicode_len();
    if n != b.unicode_len() {
        return false;
    }
    let mut i: usize = 0;
    while i < n
        invariant
            n == a@.len(),
            n == b@.len(),
            i <= n,
            forall|j: int| 0 <= j < i ==> a@[j] == b@[j],
        decreases n - i,
    {
        if a.get_char(i) != b.get_char(i) {
            return false;
        }
        i = i + 1;
    }
    assert(a@ == b@);
    true
}

/// Number of quote assets recognised at the end of a trading pair.
pub const QUOTE_COUNT: usize = 8;

/// The quote assets recognised at the end of a trading pair, in the order in
/// which they are tried.
pub open spec fn quote_asset(k: int) -> Seq<char> {
    if k == 0 { seq!['U', 'S', 'D', 'T'] }
    else if k == 1 { seq!['B', 'T', 'C'] }
    else if k == 2 { seq!['E', 'T', 'H'] }
    else if k == 3 { seq!['B', 'N', 'B'] }
    else if k == 4 { seq!['B', 'U', 'S', 'D'] }
    else if k == 5 { seq!['D', 'A', 'I'] }
    else if k == 6 { seq!['T', 'U', 'S', 'D'] }
    else { seq!['U', 'S', 'D', 'C'] }
}

/// `s` ends with `suffix`.
pub open spec fn has_suffix(s: Seq<char>, suffix: Seq<char>) -> bool {
    suffix.len() <= s.len() && s.subrange(s.len() - suffix.len(), s.len() as int) == suffix
}

/// `s` with the first quote asset from index `k` on that ends it removed;
/// `s` itself when none does.
pub open spec fn base_from(s: Seq<char>, k: int) -> Seq<char>
    decreases QUOTE_COUNT - k,
{
    if k < 0 || k >= QUOTE_COUNT {
        s
    } else if has_suffix(s, quote_asset(k)) {
        s.subrange(0, s.len() - quote_asset(k).len())
    } else {
        base_from(s, k + 1)
    }
}

/// The base asset of a trading pair: `LTC` for `LTCUSDC`.
pub open spec fn base_asset_of(symbol: Seq<char>) -> Seq<char> {
    base_from(symbol, 0)
}

fn quote_str(k: usize) -> (r: &'static str)
    requires
        k < QUOTE_COUNT,
    ensures
        r@ == quote_asset(k as int),
{
    proof {
        reveal_strlit("USDT");
        reveal_strlit("BTC");
        reveal_strlit("ETH");
        reveal_strlit("BNB");
        reveal_strlit("BUSD");
        reveal_strlit("DAI");
        reveal_strlit("TUSD");
        reveal_strlit("USDC");
    }
    if k == 0 { "USDT" }
    else if k == 1 { "BTC" }
    else if k == 2 { "ETH" }
    else if k == 3 { "BNB" }
    else if k == 4 { "BUSD" }
    else if k == 5 { "DAI" }
    else if k == 6 { "TUSD" }
    else { "USDC" }
}

fn ends_with(s: &str, n: usize, suffix: &str) -> (r: bool)
    requires
        n == s@.len(),
    ensures
        r == has_suffix(s@, suffix@),
{
    let m = suffix.unicode_len();
    if m > n {
        return false;
    }
    let start = n - m;
    let mut i: usize = 0;
    while i < m
        invariant
            m == suffix@.len(),
            n == s@.len(),
            m <= n,
            start == n - m,
            i <= m,
            forall|j: int| 0 <= j < i ==> s@[start + j] == suffix@[j],
        decreases m - i,
    {
        if s.get_char(start + i) != suffix.get_char(i) {
            assert(s@.subrange(start as int, n as int)[i as int] != suffix@[i as int]);
            return false;
        }
        i = i + 1;
    }
    assert(s@.subrange(start as int, n as int) == suffix@);
    true
}

/// The base asset of a trading pair: the pair with its quote asset removed,
/// or the pair unchanged when no known quote asset ends it.
pub fn extract_base_asset(symbol: &str) -> (r: String)
    ensures
        r@ == base_asset_of(symbol@),
{
    let n = symbol.unicode_len();
    let mut k: usize = 0;
    while k < QUOTE_COUNT
        invariant
            n == symbol@.len(),
            k <= QUOTE_COUNT,
            base_asset_of(symbol@) == base_from(symbol@, k as int),
        decreases QUOTE_COUNT - k,
    {
        let quote = quote_str(k);
        if ends_with(symbol, n, quote) {
            let base = symbol.substring_char(0, n - quote.unicode_len());
            return String::from_str(base);
        }
        k = k + 1;
    }
    String::from_str(symbol)
}

} // verus!
