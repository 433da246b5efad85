//! Exact decimal prices.
//!
//! A price is kept as an unscaled integer together with a decimal scale, so
//! that values such as `19.99` survive storage and response mapping without
//! any rounding drift. Rendering to digits and parsing back are verified to
//! be exact inverses (`lemma_render_parse_round_trip`).

use vstd::prelude::*;

verus! {

/// The largest number of fraction digits a price may carry.
pub const MAX_SCALE: u8 = 12;

/// ASCII `'0'`.
pub const ZERO_BYTE: u8 = 48;

/// ASCII `'.'`.
pub const DOT_BYTE: u8 = 46;

/// A non-negative decimal number `units / 10^scale`, e.g. `19.99` is
/// `units == 1999, scale == 2`. Trailing zeros are kept as given, so `19.90`
/// and `19.9` are distinct representations.
#[derive(Clone, Copy, PartialEq, Eq, Structural, Debug)]
pub struct Decimal {
    pub units: u64,
    pub scale: u8,
}

/// `10^k`.
pub open spec fn pow10(k: nat) -> nat
    decreases k,
{
    if k == 0 {
        1
    } else {
        10 * pow10((k - 1) as nat)
    }
}

impl Decimal {
    /// A decimal is well formed when its scale is within bounds.
    pub open spec fn wf(self) -> bool {
        self.scale <= MAX_SCALE
    }

    /// The value in fixed-point units of `10^-MAX_SCALE`: two well-formed
    /// decimals compare as numbers exactly when their keys compare.
    pub open spec fn key(self) -> int {
        self.units * pow10((MAX_SCALE - self.scale) as nat)
    }

    /// The decimal zero, used where a create request omits the price.
    pub fn zero() -> (r: Decimal)
        ensures
            r.units == 0,
            r.scale == 0,
            r.wf(),
    {
        Decimal { units: 0, scale: 0 }
    }
}

/// `10^k` monotone in the exponent.
pub proof fn lemma_pow10_le(a: nat, b: nat)
    requires
        a <= b,
    ensures
        pow10(a) <= pow10(b),
        pow10(a) >= 1,
    decreases b,
{
    if a == b {
        if b > 0 {
            lemma_pow10_le((b - 1) as nat, (b - 1) as nat);
        }
    } else {
        lemma_pow10_le(a, (b - 1) as nat);
    }
}

/// `10^k` for `k <= MAX_SCALE`, computed without overflow.
pub fn pow10_u64(k: u8) -> (r: u64)
    requires
        k <= MAX_SCALE,
    ensures
        r == pow10(k as nat),
{
    proof {
        reveal_with_fuel(pow10, 13);
    }
    let mut r: u64 = 1;
    let mut i: u8 = 0;
    while i < k
        invariant
            i <= k,
            k <= MAX_SCALE,
            r == pow10(i as nat),
        decreases k - i,
    {
        proof {
            lemma_pow10_le((i + 1) as nat, MAX_SCALE as nat);
            reveal_with_fuel(pow10, 13);
        }
        r = r * 10;
        i = i + 1;
    }
    r
}

/// Whether a byte is an ASCII decimal digit.
pub open spec fn is_digit(b: u8) -> bool {
    ZERO_BYTE <= b <= 57
}

/// Whether every byte of `s` is an ASCII decimal digit.
pub open spec fn all_digits(s: Seq<u8>) -> bool {
    forall|i: int| 0 <= i < s.len() ==> is_digit(#[trigger] s[i])
}

/// The numeric value of one digit byte.
pub open spec fn digit_val(b: u8) -> nat {
    if is_digit(b) {
        (b - ZERO_BYTE) as nat
    } else {
        0
    }
}

/// The number a digit string denotes, most significant digit first.
pub open spec fn val_of(s: Seq<u8>) -> nat
    decreases s.len(),
{
    if s.len() == 0 {
        0
    } else {
        val_of(s.drop_last()) * 10 + digit_val(s.last())
    }
}

/// The shortest digit string of `n`, most significant digit first.
pub open spec fn dec_digits(n: nat) -> Seq<u8>
    decreases n,
{
    if n < 10 {
        seq![(ZERO_BYTE + n) as u8]
    } else {
        dec_digits(n / 10).push((ZERO_BYTE + n % 10) as u8)
    }
}

/// Appending one digit multiplies the value by ten and adds the digit.
proof fn lemma_val_push(s: Seq<u8>, d: u8)
    ensures
        val_of(s.push(d)) == val_of(s) * 10 + digit_val(d),
{
    assert(s.push(d).drop_last() =~= s);
    assert(s.push(d).last() == d);
}

/// `dec_digits` renders exactly the number it was given.
pub proof fn lemma_dec_digits(n: nat)
    ensures
        all_digits(dec_digits(n)),
        val_of(dec_digits(n)) == n,
        dec_digits(n).len() >= 1,
    decreases n,
{
    if n < 10 {
        let s = dec_digits(n);
        assert(s == seq![(ZERO_BYTE + n) as u8]);
        assert(s.len() == 1);
        assert(s.last() == (ZERO_BYTE + n) as u8);
        assert(s.drop_last() =~= Seq::<u8>::empty());
        assert(val_of(s.drop_last()) == 0);
        assert(is_digit((ZERO_BYTE + n) as u8));
        assert(val_of(s) == digit_val((ZERO_BYTE + n) as u8));
    } else {
        lemma_dec_digits(n / 10);
        lemma_val_push(dec_digits(n / 10), (ZERO_BYTE + n % 10) as u8);
        assert(n == (n / 10) * 10 + n % 10) by {
            vstd::arithmetic::div_mod::lemma_fundamental_div_mod(n as int, 10);
        }
        assert forall|i: int| 0 <= i < dec_digits(n).len() implies is_digit(
            #[trigger] dec_digits(n)[i],
        ) by {
            if i < dec_digits(n / 10).len() {
                assert(dec_digits(n)[i] == dec_digits(n / 10)[i]);
            }
        }
    }
}

/// A run of `'0'` bytes denotes zero.
proof fn lemma_val_zeros(z: Seq<u8>)
    requires
        forall|i: int| 0 <= i < z.len() ==> #[trigger] z[i] == ZERO_BYTE,
    ensures
        val_of(z) == 0,
    decreases z.len(),
{
    if z.len() > 0 {
        lemma_val_zeros(z.drop_last());
    }
}

/// Leading `'0'` bytes do not change the value.
pub proof fn lemma_val_zero_prefix(z: Seq<u8>, s: Seq<u8>)
    requires
        forall|i: int| 0 <= i < z.len() ==> #[trigger] z[i] == ZERO_BYTE,
    ensures
        val_of(z + s) == val_of(s),
    decreases s.len(),
{
    if s.len() == 0 {
        assert(z + s =~= z);
        lemma_val_zeros(z);
    } else {
        assert((z + s).drop_last() =~= z + s.drop_last());
        assert((z + s).last() == s.last());
        lemma_val_zero_prefix(z, s.drop_last());
    }
}

/// The value of a prefix never exceeds the value of the whole string.
pub proof fn lemma_val_prefix_le(s: Seq<u8>, k: int)
    requires
        0 <= k <= s.len(),
    ensures
        val_of(s.take(k)) <= val_of(s),
    decreases s.len() - k,
{
    if k == s.len() {
        assert(s.take(k) =~= s);
    } else {
        assert(s.take(k + 1).drop_last() =~= s.take(k));
        assert(val_of(s.take(k + 1)) == val_of(s.take(k)) * 10 + digit_val(s.take(k + 1).last()));
        lemma_val_prefix_le(s, k + 1);
    }
}

/// Concatenation: the left part is shifted by ten to the power of the right
/// part's length.
pub proof fn lemma_val_concat(a: Seq<u8>, b: Seq<u8>)
    ensures
        val_of(a + b) == val_of(a) * pow10(b.len()) + val_of(b),
    decreases b.len(),
{
    if b.len() == 0 {
        assert(a + b =~= a);
        assert(pow10(b.len()) == 1);
        assert(val_of(b) == 0);
        assert(val_of(a) * 1 == val_of(a)) by (nonlinear_arith);
    } else {
        assert((a + b).drop_last() =~= a + b.drop_last());
        assert((a + b).last() == b.last());
        lemma_val_concat(a, b.drop_last());
        let p = pow10(b.drop_last().len());
        assert(val_of(a + b) == val_of(a + b.drop_last()) * 10 + digit_val(b.last()));
        assert(val_of(b) == val_of(b.drop_last()) * 10 + digit_val(b.last()));
        assert((val_of(a) * p + val_of(b.drop_last())) * 10 == val_of(a) * (p * 10) + val_of(
            b.drop_last(),
        ) * 10) by (nonlinear_arith);
        assert(pow10(b.len()) == 10 * pow10((b.len() - 1) as nat));
        assert(p * 10 == pow10(b.len()));
        assert(val_of(a) * (p * 10) == val_of(a) * pow10(b.len()));
        assert(val_of(a + b) == val_of(a) * pow10(b.len()) + val_of(b));
    }
}

/// The digit string of a decimal: the digits of `units` with a dot inserted
/// `scale` places from the right, padded as `0.0...` when `units` has fewer
/// digits than the scale asks for.
pub open spec fn spec_render(d: Decimal) -> Seq<u8> {
    let ds = dec_digits(d.units as nat);
    if d.scale == 0 {
        ds
    } else if ds.len() > d.scale {
        ds.take(ds.len() - d.scale as int) + seq![DOT_BYTE] + ds.skip(ds.len() - d.scale as int)
    } else {
        seq![ZERO_BYTE, DOT_BYTE] + Seq::new((d.scale - ds.len()) as nat, |i: int| ZERO_BYTE) + ds
    }
}

/// A digit string without a dot that fits in a `u64`.
pub open spec fn plain_ok(s: Seq<u8>) -> bool {
    s.len() >= 1 && all_digits(s) && val_of(s) <= u64::MAX
}

/// A digit string with exactly one dot at position `i`, digits on both sides,
/// a fraction no longer than `MAX_SCALE`, and a value that fits in a `u64`.
pub open spec fn dot_ok(s: Seq<u8>, i: int) -> bool {
    &&& 1 <= i
    &&& i + 1 < s.len()
    &&& s[i] == DOT_BYTE
    &&& all_digits(s.take(i))
    &&& all_digits(s.skip(i + 1))
    &&& s.len() - i - 1 <= MAX_SCALE
    &&& val_of(s.take(i) + s.skip(i + 1)) <= u64::MAX
}

/// What a digit string denotes: a whole number, a dotted decimal, or nothing.
pub open spec fn spec_parse(s: Seq<u8>) -> Option<Decimal> {
    if plain_ok(s) {
        Some(Decimal { units: val_of(s) as u64, scale: 0 })
    } else if exists|i: int| dot_ok(s, i) {
        let i = choose|i: int| dot_ok(s, i);
        Some(
            Decimal {
                units: val_of(s.take(i) + s.skip(i + 1)) as u64,
                scale: (s.len() - i - 1) as u8,
            },
        )
    } else {
        None
    }
}

/// At most one dot position can satisfy `dot_ok`.
pub proof fn lemma_dot_unique(s: Seq<u8>, i1: int, i2: int)
    requires
        dot_ok(s, i1),
        dot_ok(s, i2),
    ensures
        i1 == i2,
{
    if i1 < i2 {
        assert(s.take(i2)[i1] == s[i1]);
        assert(false);
    } else if i2 < i1 {
        assert(s.take(i1)[i2] == s[i2]);
        assert(false);
    }
}

/// Parses a bare digit run; `Some` exactly when the bytes are one or more
/// digits whose value fits in a `u64`.
fn parse_digit_run(s: &[u8]) -> (r: Option<u64>)
    ensures
        r is Some <==> (s@.len() >= 1 && all_digits(s@) && val_of(s@) <= u64::MAX),
        r matches Some(v) ==> v == val_of(s@),
{
    if s.len() == 0 {
        return None;
    }
    let mut acc: u64 = 0;
    let mut i: usize = 0;
    while i < s.len()
        invariant
            0 <= i <= s@.len(),
            all_digits(s@.take(i as int)),
            acc == val_of(s@.take(i as int)),
        decreases s@.len() - i,
    {
        let b = s[i];
        proof {
            assert(s@.take(i + 1).drop_last() =~= s@.take(i as int));
            assert(s@.take(i + 1).last() == s@[i as int]);
        }
        if b < ZERO_BYTE || b > 57 {
            return None;
        }
        let d: u64 = (b - ZERO_BYTE) as u64;
        let shifted = match acc.checked_mul(10) {
            Some(x) => x,
            None => {
                proof {
                    lemma_val_prefix_le(s@, i + 1);
                }
                return None;
            },
        };
        let acc2 = match shifted.checked_add(d) {
            Some(x) => x,
            None => {
                proof {
                    lemma_val_prefix_le(s@, i + 1);
                }
                return None;
            },
        };
        acc = acc2;
        i = i + 1;
    }
    proof {
        assert(s@.take(i as int) =~= s@);
    }
    Some(acc)
}

/// The position of the first dot byte, if any.
fn find_dot(s: &[u8]) -> (r: Option<usize>)
    ensures
        match r {
            Some(i) => i < s@.len() && s@[i as int] == DOT_BYTE && forall|j: int|
                0 <= j < i ==> s@[j] != DOT_BYTE,
            None => forall|j: int| 0 <= j < s@.len() ==> s@[j] != DOT_BYTE,
        },
{
    let mut i: usize = 0;
    while i < s.len()
        invariant
            0 <= i <= s@.len(),
            forall|j: int| 0 <= j < i ==> s@[j] != DOT_BYTE,
        decreases s@.len() - i,
    {
        if s[i] == DOT_BYTE {
            return Some(i);
        }
        i = i + 1;
    }
    None
}

/// Parses an ASCII decimal such as `19.99` into a [`Decimal`]. Exactly the
/// strings accepted by [`spec_parse`] succeed: one or more digits, with at
/// most one dot that has digits on both sides and at most `MAX_SCALE` digits
/// after it, denoting a value whose unscaled form fits in a `u64`.
pub fn parse_decimal(s: &[u8]) -> (r: Option<Decimal>)
    ensures
        r == spec_parse(s@),
        r matches Some(d) ==> d.wf(),
{
    let ghost sq = s@;
    match find_dot(s) {
        None => {
            // No dot anywhere, so no position can satisfy `dot_ok`.
            proof {
                assert(forall|j: int| !dot_ok(sq, j));
            }
            match parse_digit_run(s) {
                Some(v) => Some(Decimal { units: v, scale: 0 }),
                None => None,
            }
        },
        Some(di) => {
            proof {
                assert(sq[di as int] == DOT_BYTE);
                assert(!is_digit(DOT_BYTE));
                assert(!plain_ok(sq));
                // Any valid dot position must be `di`: earlier positions hold
                // no dot, and any later position would put `di`'s dot inside
                // an all-digit prefix.
                assert forall|j: int| dot_ok(sq, j) implies j == di by {
                    if j < di {
                        assert(sq[j] != DOT_BYTE);
                    } else if j > di {
                        assert(sq.take(j)[di as int] == sq[di as int]);
                    }
                }
            }
            let slen: usize = s.len();
            if di == 0 || di + 1 >= slen {
                proof {
                    assert(forall|j: int| !dot_ok(sq, j));
                }
                return None;
            }
            let frac_len = s.len() - di - 1;
            if frac_len > MAX_SCALE as usize {
                proof {
                    assert(forall|j: int| !dot_ok(sq, j));
                }
                return None;
            }
            let int_part = vstd::slice::slice_subrange(s, 0, di);
            let frac_part = vstd::slice::slice_subrange(s, di + 1, s.len());
            proof {
                assert(int_part@ =~= sq.take(di as int));
                assert(frac_part@ =~= sq.skip(di + 1));
            }
            let iv = match parse_digit_run(int_part) {
                Some(v) => v,
                None => {
                    proof {
                        if dot_ok(sq, di as int) {
                            lemma_val_prefix_le(sq.take(di as int) + sq.skip(di + 1), di as int);
                            assert((sq.take(di as int) + sq.skip(di + 1)).take(di as int)
                                =~= sq.take(di as int));
                        }
                        assert(forall|j: int| !dot_ok(sq, j));
                    }
                    return None;
                },
            };
            let fv = match parse_digit_run(frac_part) {
                Some(v) => v,
                None => {
                    proof {
                        if dot_ok(sq, di as int) {
                            lemma_val_concat(sq.take(di as int), sq.skip(di + 1));
                            lemma_pow10_le(0, sq.skip(di + 1).len());
                            assert(val_of(sq.take(di as int)) * pow10(sq.skip(di + 1).len()) >= 0)
                                by (nonlinear_arith);
                        }
                        assert(forall|j: int| !dot_ok(sq, j));
                    }
                    return None;
                },
            };
            let scale: u8 = frac_len as u8;
            let p = pow10_u64(scale);
            proof {
                lemma_val_concat(sq.take(di as int), sq.skip(di + 1));
            }
            let shifted = match iv.checked_mul(p) {
                Some(x) => x,
                None => {
                    proof {
                        assert(forall|j: int| !dot_ok(sq, j));
                    }
                    return None;
                },
            };
            let units = match shifted.checked_add(fv) {
                Some(x) => x,
                None => {
                    proof {
                        assert(forall|j: int| !dot_ok(sq, j));
                    }
                    return None;
                },
            };
            proof {
                assert(dot_ok(sq, di as int));
                lemma_dot_unique(sq, di as int, choose|j: int| dot_ok(sq, j));
            }
            Some(Decimal { units, scale })
        },
    }
}

/// Appends the decimal digits of `n`, most significant first.
fn push_units(n: u64, out: &mut Vec<u8>)
    ensures
        final(out)@ == old(out)@ + dec_digits(n as nat),
    decreases n,
{
    if n < 10 {
        out.push(ZERO_BYTE + n as u8);
        proof {
            assert(out@ =~= old(out)@ + dec_digits(n as nat));
        }
    } else {
        push_units(n / 10, out);
        out.push(ZERO_BYTE + (n % 10) as u8);
        proof {
            assert(out@ =~= old(out)@ + dec_digits(n as nat));
        }
    }
}

/// Renders a [`Decimal`] as ASCII digits with a dot, e.g. `19.99`; the exact
/// inverse of [`parse_decimal`] (see `lemma_render_parse_round_trip`).
pub fn render_decimal(d: &Decimal) -> (r: Vec<u8>)
    requires
        d.wf(),
    ensures
        r@ == spec_render(*d),
{
    let mut digits: Vec<u8> = Vec::new();
    push_units(d.units, &mut digits);
    proof {
        assert(digits@ =~= dec_digits(d.units as nat));
        lemma_dec_digits(d.units as nat);
    }
    if d.scale == 0 {
        return digits;
    }
    let n = digits.len();
    let mut out: Vec<u8> = Vec::new();
    if n > d.scale as usize {
        let cut = n - d.scale as usize;
        let mut i: usize = 0;
        while i < cut
            invariant
                0 <= i <= cut,
                cut <= digits@.len(),
                out@ == digits@.take(i as int),
            decreases cut - i,
        {
            out.push(digits[i]);
            proof {
                assert(out@ =~= digits@.take(i + 1));
            }
            i = i + 1;
        }
        out.push(DOT_BYTE);
        let mut j: usize = cut;
        while j < n
            invariant
                cut <= j <= n,
                n == digits@.len(),
                out@ == digits@.take(cut as int) + seq![DOT_BYTE] + digits@.subrange(
                    cut as int,
                    j as int,
                ),
            decreases n - j,
        {
            out.push(digits[j]);
            proof {
                assert(out@ =~= digits@.take(cut as int) + seq![DOT_BYTE] + digits@.subrange(
                    cut as int,
                    j + 1,
                ));
            }
            j = j + 1;
        }
        proof {
            assert(digits@.subrange(cut as int, n as int) =~= digits@.skip(cut as int));
            assert(out@ =~= spec_render(*d));
        }
        out
    } else {
        out.push(ZERO_BYTE);
        out.push(DOT_BYTE);
        let pad = d.scale as usize - n;
        let mut i: usize = 0;
        while i < pad
            invariant
                0 <= i <= pad,
                out@ == seq![ZERO_BYTE, DOT_BYTE] + Seq::new(i as nat, |k: int| ZERO_BYTE),
            decreases pad - i,
        {
            out.push(ZERO_BYTE);
            proof {
                assert(out@ =~= seq![ZERO_BYTE, DOT_BYTE] + Seq::new((i + 1) as nat, |k: int| ZERO_BYTE));
            }
            i = i + 1;
        }
        let mut j: usize = 0;
        while j < n
            invariant
                0 <= j <= n,
                n == digits@.len(),
                out@ == seq![ZERO_BYTE, DOT_BYTE] + Seq::new(pad as nat, |k: int| ZERO_BYTE)
                    + digits@.take(j as int),
            decreases n - j,
        {
            out.push(digits[j]);
            proof {
                assert(out@ =~= seq![ZERO_BYTE, DOT_BYTE] + Seq::new(pad as nat, |k: int| ZERO_BYTE)
                    + digits@.take(j + 1));
            }
            j = j + 1;
        }
        proof {
            assert(digits@.take(n as int) =~= digits@);
            assert(out@ =~= spec_render(*d));
        }
        out
    }
}

/// Rendering a well-formed decimal and parsing the digits back yields the
/// same decimal, scale and all: prices survive a response round trip exactly.
pub proof fn lemma_render_parse_round_trip(d: Decimal)
    requires
        d.wf(),
    ensures
        spec_parse(spec_render(d)) == Some(d),
{
    let ds = dec_digits(d.units as nat);
    lemma_dec_digits(d.units as nat);
    let s = spec_render(d);
    if d.scale == 0 {
        assert(plain_ok(s));
        assert(spec_parse(s) == Some(Decimal { units: val_of(s) as u64, scale: 0 }));
    } else if ds.len() > d.scale {
        let cut = ds.len() - d.scale as int;
        assert(s[cut] == DOT_BYTE);
        assert(!is_digit(DOT_BYTE));
        assert(!plain_ok(s));
        assert(s.take(cut) =~= ds.take(cut));
        assert(s.skip(cut + 1) =~= ds.skip(cut));
        assert(ds.take(cut) + ds.skip(cut) =~= ds);
        assert(forall|k: int| 0 <= k < cut ==> is_digit(#[trigger] s.take(cut)[k]));
        assert(forall|k: int| 0 <= k < s.skip(cut + 1).len() ==> is_digit(
            #[trigger] s.skip(cut + 1)[k],
        ));
        assert(dot_ok(s, cut));
        let c = choose|i: int| dot_ok(s, i);
        lemma_dot_unique(s, cut, c);
        assert(val_of(s.take(c) + s.skip(c + 1)) == d.units);
        assert(s.len() - c - 1 == d.scale);
    } else {
        let z = Seq::new((d.scale - ds.len()) as nat, |i: int| ZERO_BYTE);
        let cut = 1int;
        assert(s =~= seq![ZERO_BYTE, DOT_BYTE] + z + ds);
        assert(s[cut] == DOT_BYTE);
        assert(!plain_ok(s));
        assert(s.take(1) =~= seq![ZERO_BYTE]);
        assert(s.skip(2) =~= z + ds);
        assert(forall|k: int| 0 <= k < z.len() ==> is_digit(#[trigger] (z + ds)[k]));
        assert(forall|k: int| z.len() <= k < (z + ds).len() ==> is_digit(#[trigger] (z + ds)[k]));
        assert(all_digits(s.skip(2)));
        assert(all_digits(s.take(1))) by {
            assert(s.take(1)[0] == ZERO_BYTE);
        }
        lemma_val_zero_prefix(z, ds);
        assert(val_of(z + ds) == d.units);
        assert(s.take(1) + s.skip(2) =~= seq![ZERO_BYTE] + (z + ds));
        assert(forall|i: int| 0 <= i < seq![ZERO_BYTE].len() ==> #[trigger] seq![ZERO_BYTE][i]
            == ZERO_BYTE);
        lemma_val_zero_prefix(seq![ZERO_BYTE], z + ds);
        assert(val_of(s.take(1) + s.skip(2)) == d.units);
        assert(s.len() - 1 - 1 == d.scale);
        assert(dot_ok(s, 1));
        let c = choose|i: int| dot_ok(s, i);
        lemma_dot_unique(s, 1, c);
    }
}

} // verus!
