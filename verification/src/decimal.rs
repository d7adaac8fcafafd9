//! Locale-independent decimal numbers.
//!
//! The exchange formats every quantity as a decimal literal, sometimes as a
//! JSON number and sometimes as a string. This module holds such a quantity
//! exactly as written: a sign, the digits read as one integer mantissa, and
//! how many of them are fractional. A malformed literal is always a reported
//! failure, never coerced to zero.

use vstd::prelude::*;
use vstd::string::StrSliceExecFns;

verus! {

/// Most fractional digits a `Decimal` may carry.
pub const MAX_SCALE: u32 = 19;

/// A signed fixed-point decimal: the number `mantissa / 10^scale`, negated
/// when `neg` is set. `"102.50"` is held as `(false, 10250, 2)`.
#[derive(Clone, Copy, Debug, PartialEq, Eq, Structural)]
pub struct Decimal {
    pub neg: bool,
    pub mantissa: u64,
    pub scale: u32,
}

/// Whether `c` is a decimal digit.
pub open spec fn is_digit(c: char) -> bool {
    48 <= c as u32 && c as u32 <= 57
}

/// The value of a digit character.
pub open spec fn digit_of(c: char) -> nat {
    (c as u32 - 48) as nat
}

/// Whether every character of `s` is a decimal digit.
pub open spec fn all_digits(s: Seq<char>) -> bool {
    forall|i: int| 0 <= i < s.len() ==> is_digit(#[trigger] s[i])
}

/// The number a run of digits denotes, most significant first.
pub open spec fn digits_val(s: Seq<char>) -> nat
    decreases s.len(),
{
    if s.len() == 0 {
        0
    } else {
        digits_val(s.drop_last()) * 10 + digit_of(s.last())
    }
}

/// Whether index `k` splits `body` into a well-formed integer part and a
/// well-formed fractional part around a dot: both nonempty, both all digits.
pub open spec fn dot_ok(body: Seq<char>, k: int) -> bool {
    &&& 1 <= k && k + 1 < body.len()
    &&& body[k] == '.'
    &&& all_digits(body.take(k))
    &&& all_digits(body.skip(k + 1))
}

/// The `Decimal` with the given parts, as long as they fit the
/// representation; too many digits or too fine a scale is a failure.
pub open spec fn spec_in_range(neg: bool, mantissa: nat, scale: int) -> Option<Decimal> {
    if mantissa <= u64::MAX && 0 <= scale <= MAX_SCALE {
        Some(Decimal { neg, mantissa: mantissa as u64, scale: scale as u32 })
    } else {
        None
    }
}

/// The position of the first dot of `s`, or `-1` when there is none.
pub open spec fn spec_first_dot(s: Seq<char>) -> int
    decreases s.len(),
{
    if s.len() == 0 {
        -1
    } else if s[0] == '.' {
        0
    } else {
        let r = spec_first_dot(s.drop_first());
        if r < 0 {
            -1
        } else {
            r + 1
        }
    }
}

/// The value a decimal literal denotes, if it is well formed and fits.
///
/// The grammar is an optional minus sign, a nonempty run of digits, and
/// optionally a dot followed by a nonempty run of digits. Nothing else — no
/// exponents and no special words — is a decimal literal. (When some split
/// around a dot is well formed, it can only be the one at the first dot:
/// any further dot would sit inside a digit run.)
pub open spec fn spec_parse_decimal(s: Seq<char>) -> Option<Decimal> {
    let neg = s.len() > 0 && s[0] == '-';
    let body = if neg {
        s.drop_first()
    } else {
        s
    };
    let k = spec_first_dot(body);
    if body.len() > 0 && all_digits(body) {
        spec_in_range(neg, digits_val(body), 0)
    } else if dot_ok(body, k) {
        spec_in_range(
            neg,
            digits_val(body.take(k) + body.skip(k + 1)),
            body.len() - k - 1,
        )
    } else {
        None
    }
}

/// A dot at `k` with none before it is the first dot.
proof fn lemma_first_dot_is(s: Seq<char>, k: int)
    requires
        0 <= k < s.len(),
        s[k] == '.',
        forall|j: int| 0 <= j < k ==> s[j] != '.',
    ensures
        spec_first_dot(s) == k,
    decreases k,
{
    if k > 0 {
        assert(forall|j: int| 0 <= j < k - 1 ==> s.drop_first()[j] == s[j + 1]);
        lemma_first_dot_is(s.drop_first(), k - 1);
    }
}

/// The signed integer reading of the mantissa.
pub open spec fn spec_signed(d: Decimal) -> int {
    if d.neg {
        -(d.mantissa as int)
    } else {
        d.mantissa as int
    }
}

/// Ten to the power `e`.
pub open spec fn pow10(e: nat) -> nat
    decreases e,
{
    if e == 0 {
        1
    } else {
        10 * pow10((e - 1) as nat)
    }
}

/// Whether two decimals denote the same number, by cross-multiplying the
/// scales away.
pub open spec fn spec_same_value(a: Decimal, b: Decimal) -> bool {
    spec_signed(a) * pow10(b.scale as nat) == spec_signed(b) * pow10(a.scale as nat)
}

/// A character that is neither a digit nor a dot rules out every reading of
/// `body` as a decimal body.
proof fn lemma_bad_char(body: Seq<char>, i: int)
    requires
        0 <= i < body.len(),
        !is_digit(body[i]),
        body[i] != '.',
    ensures
        !all_digits(body),
        forall|k: int| !dot_ok(body, k),
{
    assert forall|k: int| !dot_ok(body, k) by {
        if dot_ok(body, k) {
            if i < k {
                assert(body.take(k)[i] == body[i]);
            } else if i > k {
                assert(body.skip(k + 1)[i - k - 1] == body[i]);
            }
        }
    }
}

/// A second dot rules out every reading of `body` as a decimal body.
proof fn lemma_two_dots(body: Seq<char>, i: int, j: int)
    requires
        0 <= i < j < body.len(),
        body[i] == '.',
        body[j] == '.',
    ensures
        !all_digits(body),
        forall|k: int| !dot_ok(body, k),
{
    assert(!is_digit(body[i]));
    assert forall|k: int| !dot_ok(body, k) by {
        if dot_ok(body, k) {
            if i < k {
                assert(body.take(k)[i] == body[i]);
            } else if i > k {
                assert(body.skip(k + 1)[i - k - 1] == body[i]);
            } else {
                assert(body.skip(k + 1)[j - k - 1] == body[j]);
            }
        }
    }
}

/// Reading one more digit multiplies the value by ten and adds the digit.
proof fn lemma_digits_val_push(s: Seq<char>, c: char)
    ensures
        digits_val(s.push(c)) == digits_val(s) * 10 + digit_of(c),
{
    assert(s.push(c).drop_last() =~= s);
    assert(s.push(c).last() == c);
}

/// A prefix of a digit run denotes no more than the whole run.
proof fn lemma_digits_val_mono(s: Seq<char>, i: int)
    requires
        0 <= i <= s.len(),
    ensures
        digits_val(s.take(i)) <= digits_val(s),
    decreases s.len(),
{
    if i < s.len() {
        assert(s.drop_last().take(i) =~= s.take(i));
        lemma_digits_val_mono(s.drop_last(), i);
    } else {
        assert(s.take(i) =~= s);
    }
}

/// Whether `c` is a decimal digit.
fn ascii_digit(c: char) -> (r: bool)
    ensures
        r == is_digit(c),
{
    let u = c as u32;
    48 <= u && u <= 57
}

/// The value of a digit character.
fn ascii_digit_val(c: char) -> (r: u64)
    requires
        is_digit(c),
    ensures
        r == digit_of(c),
{
    (c as u32 - 48) as u64
}

impl Decimal {
    /// The same decimal without its sign.
    pub open spec fn spec_abs(self) -> Decimal {
        Decimal { neg: false, ..self }
    }

    /// The same decimal with its sign flipped.
    pub open spec fn spec_negate(self) -> Decimal {
        Decimal { neg: !self.neg, ..self }
    }

    /// Whether the decimal denotes a number strictly below zero.
    pub open spec fn spec_is_strictly_neg(self) -> bool {
        self.neg && self.mantissa != 0
    }

    /// Whether the decimal denotes a number strictly above zero.
    pub open spec fn spec_is_strictly_pos(self) -> bool {
        !self.neg && self.mantissa != 0
    }

    /// The same decimal without its sign.
    pub fn abs(&self) -> (r: Decimal)
        ensures
            r == self.spec_abs(),
    {
        Decimal { neg: false, mantissa: self.mantissa, scale: self.scale }
    }

    /// The same decimal with its sign flipped.
    pub fn negate(&self) -> (r: Decimal)
        ensures
            r == self.spec_negate(),
    {
        Decimal { neg: !self.neg, mantissa: self.mantissa, scale: self.scale }
    }

    /// Whether the decimal denotes a number strictly below zero. A negative
    /// zero does not count.
    pub fn is_strictly_neg(&self) -> (r: bool)
        ensures
            r == self.spec_is_strictly_neg(),
    {
        self.neg && self.mantissa != 0
    }

    /// Whether the decimal denotes a number strictly above zero.
    pub fn is_strictly_pos(&self) -> (r: bool)
        ensures
            r == self.spec_is_strictly_pos(),
    {
        !self.neg && self.mantissa != 0
    }

    /// Whether `self` and `other` denote the same number, regardless of how
    /// many trailing fractional zeros either carries.
    pub fn same_value(&self, other: &Decimal) -> (r: bool)
        requires
            self.scale <= MAX_SCALE,
            other.scale <= MAX_SCALE,
        ensures
            r == spec_same_value(*self, *other),
    {
        let pa = pow10_u64(self.scale);
        let pb = pow10_u64(other.scale);
        proof {
            lemma_pow10_mono(self.scale as nat, 19);
            lemma_pow10_mono(other.scale as nat, 19);
            reveal_with_fuel(pow10, 20);
            assert(pow10(19) == 10000000000000000000);
            vstd::arithmetic::mul::lemma_mul_upper_bound(
                self.mantissa as int,
                u64::MAX as int,
                pb as int,
                10000000000000000000int,
            );
            vstd::arithmetic::mul::lemma_mul_upper_bound(
                other.mantissa as int,
                u64::MAX as int,
                pa as int,
                10000000000000000000int,
            );
        }
        let left: u128 = (self.mantissa as u128) * (pb as u128);
        let right: u128 = (other.mantissa as u128) * (pa as u128);
        proof {
            lemma_signed_product_eq(*self, *other, left as int, right as int);
        }
        left == right && (self.neg == other.neg || left == 0)
    }
}

/// Ten to the power `e` never vanishes.
proof fn lemma_pow10_pos(e: nat)
    ensures
        pow10(e) >= 1,
    decreases e,
{
    if e > 0 {
        lemma_pow10_pos((e - 1) as nat);
    }
}

/// Ten to the power `e` grows with `e`.
proof fn lemma_pow10_mono(a: nat, b: nat)
    requires
        a <= b,
    ensures
        pow10(a) <= pow10(b),
    decreases b,
{
    if a < b {
        lemma_pow10_mono(a, (b - 1) as nat);
        lemma_pow10_pos((b - 1) as nat);
    }
}

/// The signed cross products agree exactly when the unsigned ones do and
/// the signs are not at odds on a nonzero value.
proof fn lemma_signed_product_eq(a: Decimal, b: Decimal, left: int, right: int)
    requires
        left == (a.mantissa as int) * pow10(b.scale as nat),
        right == (b.mantissa as int) * pow10(a.scale as nat),
    ensures
        spec_same_value(a, b) <==> (left == right && (a.neg == b.neg || left == 0)),
{
    lemma_pow10_pos(a.scale as nat);
    lemma_pow10_pos(b.scale as nat);
    vstd::arithmetic::mul::lemma_mul_nonnegative(a.mantissa as int, pow10(b.scale as nat) as int);
    vstd::arithmetic::mul::lemma_mul_nonnegative(b.mantissa as int, pow10(a.scale as nat) as int);
    vstd::arithmetic::mul::lemma_mul_unary_negation(
        a.mantissa as int,
        pow10(b.scale as nat) as int,
    );
    vstd::arithmetic::mul::lemma_mul_unary_negation(
        b.mantissa as int,
        pow10(a.scale as nat) as int,
    );
    if a.neg == b.neg {
        assert(spec_same_value(a, b) <==> left == right);
    } else {
        assert(spec_same_value(a, b) <==> (left == 0 && right == 0));
    }
}

/// Ten to the power `e`, for exponents the representation allows.
fn pow10_u64(e: u32) -> (r: u64)
    requires
        e <= MAX_SCALE,
    ensures
        r == pow10(e as nat),
{
    proof {
        lemma_pow10_mono(e as nat, 19);
        reveal_with_fuel(pow10, 20);
        assert(pow10(19) == 10000000000000000000);
    }
    let mut r: u64 = 1;
    let mut i: u32 = 0;
    while i < e
        invariant
            i <= e,
            e <= MAX_SCALE,
            r == pow10(i as nat),
            pow10(e as nat) <= pow10(19),
            pow10(19) == 10000000000000000000,
        decreases e - i,
    {
        proof {
            lemma_pow10_mono((i + 1) as nat, e as nat);
        }
        r = r * 10;
        i = i + 1;
    }
    r
}

/// Parses a decimal literal: an optional minus sign, a nonempty run of
/// digits, and optionally a dot followed by a nonempty run of digits.
/// Anything else — and a literal whose digits do not fit the representation —
/// is a failure, never a zero.
#[verifier::loop_isolation(false)]
pub fn parse_decimal(s: &str) -> (r: Option<Decimal>)
    ensures
        r == spec_parse_decimal(s@),
{
    let n = s.unicode_len();
    let ghost view = s@;
    if n == 0 {
        proof {
            assert(forall|k: int| !dot_ok(view, k));
        }
        return None;
    }
    let neg = s.get_char(0) == '-';
    let start: usize = if neg {
        1
    } else {
        0
    };
    let ghost body = if neg {
        view.drop_first()
    } else {
        view
    };
    proof {
        assert(body.len() == n - start);
        assert(forall|j: int| start <= j < n ==> body[j - start] == #[trigger] view[j]);
    }
    if start == n {
        proof {
            assert(forall|k: int| !dot_ok(body, k));
        }
        return None;
    }
    // First pass: find the single dot, and check every other character is a
    // digit.
    let mut dot: Option<usize> = None;
    let mut i: usize = start;
    while i < n
        invariant
            start <= i <= n,
            match dot {
                Some(d) => start <= d < i && view[d as int] == '.' && (forall|j: int|
                    start <= j < i && j != d ==> is_digit(#[trigger] view[j])),
                None => forall|j: int| start <= j < i ==> is_digit(#[trigger] view[j]),
            },
        decreases n - i,
    {
        let c = s.get_char(i);
        if c == '.' {
            match dot {
                Some(d) => {
                    proof {
                        assert(body[d - start] == view[d as int]);
                        assert(body[i - start] == view[i as int]);
                        lemma_two_dots(body, d - start, i - start);
                    }
                    return None;
                },
                None => {
                    dot = Some(i);
                },
            }
        } else if !ascii_digit(c) {
            proof {
                assert(body[i - start] == view[i as int]);
                lemma_bad_char(body, i - start);
            }
            return None;
        }
        i += 1;
    }
    match dot {
        None => parse_plain(s, start, neg, Ghost(body)),
        Some(d) => parse_dotted(s, start, d, neg, Ghost(body)),
    }
}

/// Finishes parsing a literal whose body is one run of digits.
#[verifier::loop_isolation(false)]
fn parse_plain(s: &str, start: usize, neg: bool, Ghost(body): Ghost<Seq<char>>) -> (r: Option<
    Decimal,
>)
    requires
        neg == (s@.len() > 0 && s@[0] == '-'),
        start == if neg { 1int } else { 0int },
        body == if neg { s@.drop_first() } else { s@ },
        start < s@.len(),
        forall|j: int| start <= j < s@.len() ==> is_digit(#[trigger] s@[j]),
    ensures
        r == spec_parse_decimal(s@),
{
    let n = s.unicode_len();
    proof {
        assert forall|m: int| 0 <= m < body.len() implies is_digit(#[trigger] body[m]) by {
            assert(body[m] == s@[m + start]);
        }
        assert forall|j: int| start <= j < n implies body[j - start] == #[trigger] s@[j] by {}
        assert(body.take(0) =~= Seq::<char>::empty());
    }
    match accumulate_digits(s, start, n, 0, Ghost(body)) {
        Some(mantissa) => Some(Decimal { neg, mantissa, scale: 0 }),
        None => None,
    }
}

/// Finishes parsing a literal whose body carries one dot at position
/// `d` of the string, every other character being a digit.
#[verifier::loop_isolation(false)]
#[verifier::rlimit(100)]
fn parse_dotted(
    s: &str,
    start: usize,
    d: usize,
    neg: bool,
    Ghost(body): Ghost<Seq<char>>,
) -> (r: Option<Decimal>)
    requires
        neg == (s@.len() > 0 && s@[0] == '-'),
        start == if neg { 1int } else { 0int },
        body == if neg { s@.drop_first() } else { s@ },
        start <= d < s@.len(),
        s@[d as int] == '.',
        forall|j: int| start <= j < s@.len() && j != d ==> is_digit(#[trigger] s@[j]),
    ensures
        r == spec_parse_decimal(s@),
{
    let n = s.unicode_len();
    let ghost view = s@;
    let ghost k = d - start;
    proof {
        assert(body.len() == n - start);
        assert(forall|j: int| start <= j < n ==> body[j - start] == #[trigger] view[j]);
        assert(body[k] == view[d as int]);
    }
    if d == start {
        proof {
            assert(!is_digit(body[0]));
            assert forall|k2: int| !dot_ok(body, k2) by {
                if dot_ok(body, k2) {
                    assert(body.take(k2)[0] == body[0]);
                }
            }
        }
        return None;
    }
    if d == n - 1 {
        proof {
            assert(!is_digit(body[k]));
            assert forall|k2: int| !dot_ok(body, k2) by {
                if dot_ok(body, k2) {
                    if k2 < k {
                        assert(body.skip(k2 + 1)[k - k2 - 1] == body[k]);
                    } else if k2 > k {
                        assert(body.take(k2)[k] == body[k]);
                    }
                }
            }
        }
        return None;
    }
    proof {
        assert forall|j: int| 0 <= j < k implies is_digit(#[trigger] body.take(k)[j]) by {
            assert(body.take(k)[j] == body[j]);
            assert(body[j] == view[j + start]);
        }
        assert forall|j: int| 0 <= j < body.skip(k + 1).len() implies is_digit(
            #[trigger] body.skip(k + 1)[j],
        ) by {
            assert(body.skip(k + 1)[j] == body[j + k + 1]);
            assert(body[j + k + 1] == view[j + k + 1 + start]);
        }
        assert(dot_ok(body, k));
        assert(!all_digits(body));
        assert forall|j: int| 0 <= j < k implies body[j] != '.' by {
            assert(body.take(k)[j] == body[j]);
        }
        lemma_first_dot_is(body, k);
    }
    let ghost digits = body.take(k) + body.skip(k + 1);
    proof {
        assert forall|j: int| 0 <= j < digits.len() implies is_digit(#[trigger] digits[j]) by {
            if j < k {
                assert(digits[j] == body.take(k)[j]);
            } else {
                assert(digits[j] == body.skip(k + 1)[j - k]);
            }
        }
        assert(digits.take(k) =~= body.take(k));
        assert(body.take(k).take(0) =~= Seq::<char>::empty());
        assert forall|j: int| start <= j < d implies body.take(k)[j - start] == #[trigger] view[j] by {
            assert(body.take(k)[j - start] == body[j - start]);
        }
        assert forall|j: int| d + 1 <= j < n implies digits[j - (d + 1) + k] == #[trigger] view[j] by {
            assert(digits[j - (d + 1) + k] == body.skip(k + 1)[j - d - 1]);
            assert(body.skip(k + 1)[j - d - 1] == body[k + j - d]);
            assert(body[k + j - d] == view[k + j - d + start]);
        }
    }
    let scale_wide: usize = n - 1 - d;
    if scale_wide > MAX_SCALE as usize {
        return None;
    }
    let intpart = match accumulate_digits(s, start, d, 0, Ghost(body.take(k))) {
        Some(m) => m,
        None => {
            proof {
                lemma_digits_val_mono(digits, k);
            }
            return None;
        },
    };
    let mantissa = match accumulate_digits(s, d + 1, n, intpart, Ghost(digits)) {
        Some(m) => m,
        None => {
            return None;
        },
    };
    proof {
        assert(spec_first_dot(body) == k);
        assert(digits_val(body.take(k) + body.skip(k + 1)) == mantissa);
        assert(body.len() - k - 1 == scale_wide as int);
    }
    Some(Decimal { neg, mantissa, scale: scale_wide as u32 })
}


/// A run of `k` zero characters.
pub open spec fn spec_zeros(k: nat) -> Seq<char> {
    Seq::new(k, |i: int| '0')
}

/// The wire rendering of a decimal: the mantissa's digits with a dot set
/// `scale` places from the right, a leading zero when the integer part is
/// empty, and a minus sign when negative.
pub open spec fn spec_dec_str(d: Decimal) -> Seq<char> {
    let digs = crate::text::spec_digits_of(d.mantissa as nat);
    let sign: Seq<char> = if d.neg {
        seq!['-']
    } else {
        Seq::<char>::empty()
    };
    if d.scale == 0 {
        sign + digs
    } else if digs.len() > d.scale {
        sign + digs.take(digs.len() - d.scale) + seq!['.'] + digs.skip(digs.len() - d.scale)
    } else {
        sign + seq!['0', '.'] + spec_zeros((d.scale - digs.len()) as nat) + digs
    }
}

impl Decimal {
    /// Renders the decimal for the wire, exactly as many fractional digits
    /// as its scale carries.
    #[verifier::loop_isolation(false)]
    #[verifier::rlimit(100)]
    pub fn to_wire(&self) -> (r: String)
        ensures
            r@ == spec_dec_str(*self),
    {
        let digs = crate::text::digit_chars(self.mantissa);
        let ghost dv = digs@;
        let ghost sign: Seq<char> = if self.neg {
            seq!['-']
        } else {
            Seq::<char>::empty()
        };
        let mut out = String::new();
        if self.neg {
            out.push('-');
        }
        proof {
            assert(out@ =~= sign);
        }
        let len = digs.len();
        if self.scale == 0 {
            let mut i: usize = 0;
            proof {
                assert(out@ =~= sign + dv.take(0));
            }
            while i < len
                invariant
                    i <= len,
                    out@ == sign + dv.take(i as int),
                decreases len - i,
            {
                out.push(digs[i]);
                i += 1;
                proof {
                    assert(sign + dv.take(i - 1) + seq![dv[i - 1]] =~= sign + dv.take(i as int));
                }
            }
            proof {
                assert(dv.take(len as int) =~= dv);
                assert(out@ =~= spec_dec_str(*self));
            }
            out
        } else if len > self.scale as usize {
            let cut = len - self.scale as usize;
            let mut i: usize = 0;
            proof {
                assert(out@ =~= sign + dv.take(0));
            }
            while i < cut
                invariant
                    i <= cut,
                    out@ == sign + dv.take(i as int),
                decreases cut - i,
            {
                out.push(digs[i]);
                i += 1;
                proof {
                    assert(sign + dv.take(i - 1) + seq![dv[i - 1]] =~= sign + dv.take(i as int));
                }
            }
            out.push('.');
            let ghost mid = sign + dv.take(cut as int) + seq!['.'];
            proof {
                assert(out@ =~= mid + dv.skip(cut as int).take(0));
            }
            let mut j: usize = cut;
            while j < len
                invariant
                    cut <= j <= len,
                    out@ == mid + dv.skip(cut as int).take(j - cut),
                decreases len - j,
            {
                out.push(digs[j]);
                j += 1;
                proof {
                    assert(dv.skip(cut as int)[j - cut - 1] == dv[j - 1]);
                    assert(mid + dv.skip(cut as int).take(j - cut - 1) + seq![dv[j - 1]] =~= mid
                        + dv.skip(cut as int).take(j - cut));
                }
            }
            proof {
                assert(dv.skip(cut as int).take((len - cut) as int) =~= dv.skip(cut as int));
                assert(out@ =~= spec_dec_str(*self));
            }
            out
        } else {
            out.push('0');
            out.push('.');
            let ghost head = sign + seq!['0', '.'];
            proof {
                assert(out@ =~= head);
            }
            let pad = self.scale as usize - len;
            let mut z: usize = 0;
            proof {
                assert(head + spec_zeros(0) =~= head);
            }
            while z < pad
                invariant
                    z <= pad,
                    out@ == head + spec_zeros(z as nat),
                decreases pad - z,
            {
                out.push('0');
                z += 1;
                proof {
                    assert(head + spec_zeros((z - 1) as nat) + seq!['0'] =~= head + spec_zeros(
                        z as nat,
                    ));
                }
            }
            let ghost mid = head + spec_zeros(pad as nat);
            proof {
                assert(out@ =~= mid + dv.take(0));
            }
            let mut i: usize = 0;
            while i < len
                invariant
                    i <= len,
                    out@ == mid + dv.take(i as int),
                decreases len - i,
            {
                out.push(digs[i]);
                i += 1;
                proof {
                    assert(mid + dv.take(i - 1) + seq![dv[i - 1]] =~= mid + dv.take(i as int));
                }
            }
            proof {
                assert(dv.take(len as int) =~= dv);
                assert(out@ =~= spec_dec_str(*self));
            }
            out
        }
    }
}

/// A decimal rendering is a nonempty run of digit characters.
proof fn lemma_digits_of_all_digits(n: nat)
    ensures
        all_digits(crate::text::spec_digits_of(n)),
        crate::text::spec_digits_of(n).len() >= 1,
    decreases n,
{
    if n < 10 {
        assert(is_digit(crate::text::digit_char(n)));
    } else {
        lemma_digits_of_all_digits(n / 10);
        let s = crate::text::spec_digits_of(n / 10);
        let c = crate::text::digit_char(n % 10);
        assert(is_digit(c));
        assert forall|i: int| 0 <= i < s.push(c).len() implies is_digit(#[trigger] s.push(c)[i]) by {
            if i < s.len() {
                assert(s.push(c)[i] == s[i]);
            } else {
                assert(s.push(c)[i] == c);
            }
        }
    }
}

/// A decimal rendering denotes the number it was rendered from.
proof fn lemma_digits_of_val(n: nat)
    ensures
        digits_val(crate::text::spec_digits_of(n)) == n,
    decreases n,
{
    if n < 10 {
        let c = crate::text::digit_char(n);
        assert(seq![c].drop_last() =~= Seq::<char>::empty());
        assert(digits_val(Seq::<char>::empty()) == 0);
        assert(seq![c].last() == c);
        assert(digit_of(c) == n);
        assert(digits_val(seq![c]) == digit_of(c));
    } else {
        lemma_digits_of_val(n / 10);
        lemma_digits_val_push(crate::text::spec_digits_of(n / 10), crate::text::digit_char(n % 10));
        assert(digit_of(crate::text::digit_char(n % 10)) == n % 10);
    }
}

/// A run of zero characters denotes zero.
proof fn lemma_digits_val_all_zeros(z: Seq<char>)
    requires
        forall|i: int| 0 <= i < z.len() ==> z[i] == '0',
    ensures
        digits_val(z) == 0,
    decreases z.len(),
{
    if z.len() > 0 {
        lemma_digits_val_all_zeros(z.drop_last());
        assert(digit_of('0') == 0);
    }
}

/// Leading zeros do not change what a digit run denotes.
proof fn lemma_digits_val_zeros_prefix(z: Seq<char>, t: Seq<char>)
    requires
        forall|i: int| 0 <= i < z.len() ==> z[i] == '0',
    ensures
        digits_val(z + t) == digits_val(t),
    decreases t.len(),
{
    if t.len() == 0 {
        assert(z + t =~= z);
        lemma_digits_val_all_zeros(z);
    } else {
        assert((z + t).drop_last() =~= z + t.drop_last());
        assert((z + t).last() == t.last());
        lemma_digits_val_zeros_prefix(z, t.drop_last());
    }
}

/// Rendering and parsing are inverse: the wire form of any representable
/// decimal parses back to exactly that decimal, sign, mantissa and scale
/// alike.
pub proof fn lemma_wire_round_trip(d: Decimal)
    requires
        d.scale <= MAX_SCALE,
    ensures
        spec_parse_decimal(spec_dec_str(d)) == Some(d),
{
    let digs = crate::text::spec_digits_of(d.mantissa as nat);
    lemma_digits_of_all_digits(d.mantissa as nat);
    lemma_digits_of_val(d.mantissa as nat);
    let len = digs.len() as int;
    if d.scale == 0 {
        lemma_round_trip_plain(d, digs);
    } else if len > d.scale {
        lemma_round_trip_split(d, digs);
    } else {
        lemma_round_trip_padded(d, digs);
    }
}

/// The round trip for a whole-number rendering.
proof fn lemma_round_trip_plain(d: Decimal, digs: Seq<char>)
    requires
        d.scale == 0,
        digs == crate::text::spec_digits_of(d.mantissa as nat),
        all_digits(digs),
        digs.len() >= 1,
        digits_val(digs) == d.mantissa,
    ensures
        spec_parse_decimal(spec_dec_str(d)) == Some(d),
{
    let s = spec_dec_str(d);
    if d.neg {
        assert(s == seq!['-'] + digs);
        assert(s[0] == '-');
        assert(s.len() > 0);
        assert(s.drop_first() =~= digs);
    } else {
        assert(s =~= digs);
        assert(is_digit(s[0]));
        assert(s[0] != '-');
    }
}

/// The round trip for a rendering whose digits straddle the dot.
proof fn lemma_round_trip_split(d: Decimal, digs: Seq<char>)
    requires
        0 < d.scale <= MAX_SCALE,
        digs.len() > d.scale,
        digs == crate::text::spec_digits_of(d.mantissa as nat),
        all_digits(digs),
        digits_val(digs) == d.mantissa,
    ensures
        spec_parse_decimal(spec_dec_str(d)) == Some(d),
{
    let len = digs.len() as int;
    let cut = len - d.scale;
    let x = digs.take(cut) + seq!['.'] + digs.skip(cut);
    let s = spec_dec_str(d);
    let body: Seq<char> = if d.neg {
        s.drop_first()
    } else {
        s
    };
    if d.neg {
        assert(s == seq!['-'] + x);
        assert(s[0] == '-');
        assert(body =~= x);
    } else {
        assert(s =~= x);
        assert(x[0] == digs.take(cut)[0]);
        assert(is_digit(x[0]));
        assert(x[0] != '-');
        assert(body == s);
    }
    assert(body == x);
    assert(x[cut] == '.');
    assert(!is_digit(x[cut]));
    assert(!all_digits(x));
    assert forall|j: int| 0 <= j < cut implies x[j] != '.' by {
        assert(x[j] == digs.take(cut)[j]);
        assert(is_digit(digs[j]));
    }
    lemma_first_dot_is(x, cut);
    assert(x.take(cut) =~= digs.take(cut));
    assert(x.skip(cut + 1) =~= digs.skip(cut));
    assert(dot_ok(x, cut));
    assert(x.take(cut) + x.skip(cut + 1) =~= digs);
    assert(x.len() - cut - 1 == d.scale);
}

/// The round trip for a rendering padded with a leading zero.
proof fn lemma_round_trip_padded(d: Decimal, digs: Seq<char>)
    requires
        0 < d.scale <= MAX_SCALE,
        digs.len() <= d.scale,
        digs == crate::text::spec_digits_of(d.mantissa as nat),
        all_digits(digs),
        digs.len() >= 1,
        digits_val(digs) == d.mantissa,
    ensures
        spec_parse_decimal(spec_dec_str(d)) == Some(d),
{
    let pad = (d.scale - digs.len()) as nat;
    let x = seq!['0', '.'] + spec_zeros(pad) + digs;
    let s = spec_dec_str(d);
    let body: Seq<char> = if d.neg {
        s.drop_first()
    } else {
        s
    };
    if d.neg {
        assert(s == seq!['-'] + (seq!['0', '.'] + spec_zeros(pad) + digs));
        assert(s[0] == '-');
        assert(body =~= x);
    } else {
        assert(s =~= x);
        assert(x[0] == '0');
        assert(body == s);
    }
    assert(body == x);
    assert(x[0] == '0');
    assert(x[1] == '.');
    assert(!is_digit(x[1]));
    assert(!all_digits(x));
    assert forall|j: int| 0 <= j < 1 implies x[j] != '.' by {
        assert(x[0] == '0');
    }
    lemma_first_dot_is(x, 1);
    assert(x.take(1) =~= seq!['0']);
    let fp = spec_zeros(pad) + digs;
    assert(x.skip(2) =~= fp);
    assert forall|j: int| 0 <= j < fp.len() implies is_digit(#[trigger] fp[j]) by {
        if j < pad {
            assert(fp[j] == '0');
        } else {
            assert(fp[j] == digs[j - pad]);
        }
    }
    assert(dot_ok(x, 1));
    assert(x.take(1) + x.skip(2) =~= seq!['0'] + spec_zeros(pad) + digs);
    let z = seq!['0'] + spec_zeros(pad);
    assert forall|i: int| 0 <= i < z.len() implies z[i] == '0' by {}
    assert(seq!['0'] + spec_zeros(pad) + digs =~= z + digs);
    lemma_digits_val_zeros_prefix(z, digs);
    assert(digits_val(x.take(1) + x.skip(2)) == d.mantissa);
    assert(x.len() - 1 - 1 == d.scale);
}

/// The `i32` a literal denotes, when it is a plain integer (no dot) in the
/// type's range.
pub open spec fn spec_text_i32(s: Seq<char>) -> Option<i32> {
    match spec_parse_decimal(s) {
        Some(d) => if d.scale == 0 && -2147483648 <= spec_signed(d) <= 2147483647 {
            Some(spec_signed(d) as i32)
        } else {
            None
        },
        None => None,
    }
}

/// The `u32` a literal denotes, when it is a plain integer in the type's
/// range.
pub open spec fn spec_text_u32(s: Seq<char>) -> Option<u32> {
    match spec_parse_decimal(s) {
        Some(d) => if d.scale == 0 && 0 <= spec_signed(d) <= 4294967295 {
            Some(spec_signed(d) as u32)
        } else {
            None
        },
        None => None,
    }
}

/// Parses a plain integer literal into an `i32`; a fractional literal or a
/// value out of range is a failure.
pub fn text_to_i32(s: &str) -> (r: Option<i32>)
    ensures
        r == spec_text_i32(s@),
{
    match parse_decimal(s) {
        Some(d) => {
            if d.scale != 0 {
                return None;
            }
            if d.neg {
                if d.mantissa <= 2147483648u64 {
                    Some((-(d.mantissa as i64)) as i32)
                } else {
                    None
                }
            } else {
                if d.mantissa <= 2147483647u64 {
                    Some(d.mantissa as i32)
                } else {
                    None
                }
            }
        },
        None => None,
    }
}

/// Parses a plain integer literal into a `u32`; a fractional, negative or
/// out-of-range literal is a failure.
pub fn text_to_u32(s: &str) -> (r: Option<u32>)
    ensures
        r == spec_text_u32(s@),
{
    match parse_decimal(s) {
        Some(d) => {
            if d.scale == 0 && (!d.neg || d.mantissa == 0) && d.mantissa <= 4294967295u64 {
                Some(d.mantissa as u32)
            } else {
                None
            }
        },
        None => None,
    }
}

/// Reads the digits of `s` at positions `from..to` on top of a seed that
/// already holds the value of the earlier digits of the full run `digits`;
/// fails exactly when the full run does not fit a `u64`.
#[verifier::loop_isolation(false)]
fn accumulate_digits(
    s: &str,
    from: usize,
    to: usize,
    seed: u64,
    Ghost(digits): Ghost<Seq<char>>,
) -> (r: Option<u64>)
    requires
        from <= to <= s@.len(),
        to - from <= digits.len(),
        forall|j: int|
            from <= j < to ==> digits[j - from + (digits.len() - (to - from))] == #[trigger] s@[j],
        all_digits(digits),
        seed == digits_val(digits.take(digits.len() - (to - from))),
    ensures
        match r {
            Some(m) => digits_val(digits) <= u64::MAX && m == digits_val(digits),
            None => digits_val(digits) > u64::MAX,
        },
{
    let ghost offset = digits.len() - (to - from);
    let mut acc: u128 = seed as u128;
    let mut i: usize = from;
    while i < to
        invariant
            from <= i <= to,
            to <= s@.len(),
            to - from <= digits.len(),
            offset == digits.len() - (to - from),
            forall|j: int| from <= j < to ==> digits[j - from + offset] == #[trigger] s@[j],
            all_digits(digits),
            acc == digits_val(digits.take(offset + (i - from))),
            acc <= u64::MAX,
        decreases to - i,
    {
        let c = s.get_char(i);
        let ghost pos = offset + (i - from);
        proof {
            assert(digits[pos] == s@[i as int]);
            assert(is_digit(digits[pos]));
            assert(digits.take(pos + 1) =~= digits.take(pos).push(digits[pos]));
            lemma_digits_val_push(digits.take(pos), digits[pos]);
        }
        let d = ascii_digit_val(c);
        acc = acc * 10 + (d as u128);
        if acc > u64::MAX as u128 {
            proof {
                lemma_digits_val_mono(digits, pos + 1);
            }
            return None;
        }
        i += 1;
    }
    proof {
        assert(digits.take(offset + (to - from)) =~= digits);
    }
    Some(acc as u64)
}

} // verus!
