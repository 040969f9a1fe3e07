//! Exact decimal numbers and their text.

use vstd::arithmetic::div_mod::{lemma_fundamental_div_mod, lemma_fundamental_div_mod_converse};
use vstd::prelude::*;
use vstd::string::*;

verus! {

/// Ten to the power `n`.
pub open spec fn pow10(n: nat) -> nat
    decreases n,
{
    if n == 0 {
        1
    } else {
        10 * pow10((n - 1) as nat)
    }
}

pub proof fn lemma_pow10_positive(n: nat)
    ensures
        pow10(n) > 0,
    decreases n,
{
    if n > 0 {
        lemma_pow10_positive((n - 1) as nat);
    }
}

pub proof fn lemma_pow10_add(a: nat, b: nat)
    ensures
        pow10(a + b) == pow10(a) * pow10(b),
    decreases a,
{
    if a == 0 {
        assert(pow10(a) * pow10(b) == pow10(b)) by (nonlinear_arith)
            requires
                pow10(a) == 1,
        ;
    } else {
        let a1 = (a - 1) as nat;
        lemma_pow10_add(a1, b);
        assert(a1 + b == (a + b - 1) as nat);
        assert(pow10(a + b) == 10 * pow10(a1 + b));
        assert(10 * (pow10(a1) * pow10(b)) == (10 * pow10(a1)) * pow10(b)) by (nonlinear_arith);
    }
}

pub proof fn lemma_pow10_monotonic(a: nat, b: nat)
    requires
        a <= b,
    ensures
        pow10(a) <= pow10(b),
    decreases b,
{
    if a < b {
        lemma_pow10_monotonic(a, (b - 1) as nat);
    }
}

/// The powers of ten that the library's scales reach.
pub proof fn lemma_pow10_values()
    ensures
        pow10(3) == 1_000,
        pow10(6) == 1_000_000,
        pow10(7) == 10_000_000,
        pow10(9) == 1_000_000_000,
        pow10(10) == 10_000_000_000,
        pow10(20) == 100_000_000_000_000_000_000,
        pow10(30) == 1_000_000_000_000_000_000_000_000_000_000,
{
    reveal_with_fuel(pow10, 11);
    assert(pow10(10) == 10_000_000_000);
    lemma_pow10_add(10, 10);
    lemma_pow10_add(10, 20);
}

/// Ten to the power `n`, for the scales that fit.
pub fn pow10_exec(n: u8) -> (r: u128)
    requires
        n <= 30,
    ensures
        r == pow10(n as nat),
{
    let mut r: u128 = 1;
    let mut i: u8 = 0;
    while i < n
        invariant
            i <= n <= 30,
            r == pow10(i as nat),
        decreases n - i,
    {
        proof {
            lemma_pow10_monotonic((i + 1) as nat, 30);
            lemma_pow10_values();
        }
        r = r * 10;
        i += 1;
    }
    r
}

/// The character of the decimal digit `d`.
pub open spec fn digit_char(d: nat) -> char {
    ((48 + d) as u8) as char
}

/// The decimal digits of `n`, without leading zeros; `0` is written `0`.
pub open spec fn nat_text(n: nat) -> Seq<char>
    decreases n,
{
    if n < 10 {
        seq![digit_char(n)]
    } else {
        nat_text(n / 10).push(digit_char(n % 10))
    }
}

/// The last `width` decimal digits of `n`, with leading zeros.
pub open spec fn padded_text(n: nat, width: nat) -> Seq<char>
    decreases width,
{
    if width == 0 {
        Seq::<char>::empty()
    } else {
        padded_text(n / 10, (width - 1) as nat).push(digit_char(n % 10))
    }
}

/// `k` zeros.
pub open spec fn zeros(k: nat) -> Seq<char> {
    Seq::new(k, |i: int| '0')
}

fn digit_of(d: u8) -> (c: char)
    requires
        d < 10,
    ensures
        c == digit_char(d as nat),
{
    (48u8 + d) as char
}

/// Appends the decimal digits of `n`.
pub fn write_nat(buf: &mut String, n: u128)
    ensures
        final(buf)@ == old(buf)@ + nat_text(n as nat),
    decreases n,
{
    if n < 10 {
        buf.push(digit_of(n as u8));
        assert(buf@ =~= old(buf)@ + nat_text(n as nat));
    } else {
        write_nat(buf, n / 10);
        buf.push(digit_of((n % 10) as u8));
        assert(buf@ =~= old(buf)@ + nat_text(n as nat));
    }
}

/// Appends the last `width` decimal digits of `n`, with leading zeros.
pub fn write_padded(buf: &mut String, n: u128, width: u8)
    ensures
        final(buf)@ == old(buf)@ + padded_text(n as nat, width as nat),
    decreases width,
{
    if width == 0 {
        assert(buf@ =~= old(buf)@ + padded_text(n as nat, 0));
    } else {
        write_padded(buf, n / 10, width - 1);
        buf.push(digit_of((n % 10) as u8));
        assert(buf@ =~= old(buf)@ + padded_text(n as nat, width as nat));
    }
}

/// Appends `k` zeros.
pub fn write_zeros(buf: &mut String, k: usize)
    ensures
        final(buf)@ == old(buf)@ + zeros(k as nat),
{
    let mut i: usize = 0;
    assert(buf@ =~= old(buf)@ + zeros(0));
    while i < k
        invariant
            i <= k,
            buf@ == old(buf)@ + zeros(i as nat),
        decreases k - i,
    {
        buf.push('0');
        i += 1;
        assert(buf@ =~= old(buf)@ + zeros(i as nat));
    }
}

/// The digits after the point grow by `k` zeros when the number is multiplied
/// by ten to the `k`.
pub proof fn lemma_padded_shift(n: nat, width: nat, k: nat)
    ensures
        padded_text(n * pow10(k), width + k) == padded_text(n, width) + zeros(k),
    decreases k,
{
    if k == 0 {
        assert(n * pow10(0) == n) by (nonlinear_arith)
            requires
                pow10(0) == 1,
        ;
        assert(padded_text(n, width) + zeros(0) =~= padded_text(n, width));
    } else {
        let k1 = (k - 1) as nat;
        let x = n * pow10(k);
        assert(x == (n * pow10(k1)) * 10) by (nonlinear_arith)
            requires
                x == n * pow10(k),
                pow10(k) == 10 * pow10(k1),
        ;
        assert(x / 10 == n * pow10(k1));
        assert(x % 10 == 0);
        lemma_padded_shift(n, width, k1);
        assert((width + k - 1) as nat == width + k1);
        assert(padded_text(x, width + k) == padded_text(n * pow10(k1), width + k1).push('0'));
        assert((padded_text(n, width) + zeros(k1)).push('0') =~= padded_text(n, width) + zeros(k));
    }
}

/// An exact decimal number: a sign, a whole part, and `scale` digits after the
/// point. It stands for `whole + frac / 10^scale`, negated where `negative`.
#[derive(Debug, Clone, Copy, PartialEq, Eq)]
pub struct Decimal {
    pub negative: bool,
    pub whole: u128,
    pub frac: u128,
    pub scale: u8,
}

/// `m / 10^scale` rounded to `p` digits after the point, as a multiple of
/// `10^-p`: exact where `p` reaches the scale, else to the nearest multiple,
/// and of two equally near ones to the even one.
pub open spec fn rounded(m: nat, scale: nat, p: nat) -> nat {
    if p >= scale {
        m * pow10((p - scale) as nat)
    } else {
        let u = pow10((scale - p) as nat);
        let q = m / u;
        let r = m % u;
        if 2 * r > u || (2 * r == u && q % 2 == 1) {
            q + 1
        } else {
            q
        }
    }
}

/// The text of `m / 10^p` with exactly `p` digits after the point, and no
/// point where `p` is zero.
pub open spec fn fixed_text(negative: bool, m: nat, p: nat) -> Seq<char> {
    (if negative {
        seq!['-']
    } else {
        Seq::<char>::empty()
    }) + nat_text(m / pow10(p)) + (if p > 0 {
        seq!['.'] + padded_text(m % pow10(p), p)
    } else {
        Seq::<char>::empty()
    })
}

/// The text of a number given in parts: a sign, the whole part, and behind a
/// point the last `width` digits of `frac` and `extra` zeros; no point where
/// no digit follows it.
pub open spec fn parts_text(negative: bool, whole: nat, frac: nat, width: nat, extra: nat) -> Seq<char> {
    (if negative {
        seq!['-']
    } else {
        Seq::<char>::empty()
    }) + nat_text(whole) + (if width + extra > 0 {
        seq!['.'] + padded_text(frac, width) + zeros(extra)
    } else {
        Seq::<char>::empty()
    })
}

proof fn lemma_split(whole: nat, frac: nat, unit: nat)
    requires
        frac < unit,
    ensures
        (whole * unit + frac) / unit == whole,
        (whole * unit + frac) % unit == frac,
{
    lemma_fundamental_div_mod_converse(
        (whole * unit + frac) as int,
        unit as int,
        whole as int,
        frac as int,
    );
}

impl Decimal {
    /// The scale is at most 30, and the fraction has no more digits than it.
    pub open spec fn wf(self) -> bool {
        &&& self.scale <= 30
        &&& self.frac < pow10(self.scale as nat)
        &&& self.whole < u128::MAX
    }

    /// The absolute value, times ten to the scale.
    pub open spec fn magnitude(self) -> nat {
        (self.whole * pow10(self.scale as nat) + self.frac) as nat
    }

    /// The value, times ten to the scale.
    pub open spec fn scaled(self) -> int {
        if self.negative {
            -(self.magnitude() as int)
        } else {
            self.magnitude() as int
        }
    }

    /// The text of the number: with a precision, rounded to that many digits
    /// after the point; without one, with all the digits of its scale.
    pub open spec fn text(self, precision: Option<usize>) -> Seq<char> {
        match precision {
            Some(p) => fixed_text(
                self.negative,
                rounded(self.magnitude(), self.scale as nat, p as nat),
                p as nat,
            ),
            None => fixed_text(self.negative, self.magnitude(), self.scale as nat),
        }
    }

    fn write_parts(buf: &mut String, negative: bool, whole: u128, frac: u128, width: u8, extra: usize)
        ensures
            final(buf)@ == old(buf)@ + parts_text(
                negative,
                whole as nat,
                frac as nat,
                width as nat,
                extra as nat,
            ),
    {
        if negative {
            buf.push('-');
        }
        write_nat(buf, whole);
        if width > 0 || extra > 0 {
            buf.push('.');
            write_padded(buf, frac, width);
            write_zeros(buf, extra);
        }
        assert(buf@ =~= old(buf)@ + parts_text(
            negative,
            whole as nat,
            frac as nat,
            width as nat,
            extra as nat,
        ));
    }

    /// The number that is `x / 10^scale`.
    pub open spec fn of_scaled(x: int, scale: u8) -> Decimal {
        let m = if x < 0 {
            -x
        } else {
            x
        };
        Decimal {
            negative: x < 0,
            whole: (m / pow10(scale as nat) as int) as u128,
            frac: (m % pow10(scale as nat) as int) as u128,
            scale,
        }
    }

    /// The decimal number made for `x / 10^scale` has that value.
    pub proof fn lemma_of_scaled(x: int, scale: u8)
        requires
            scale <= 30,
            -0x7fff_ffff_ffff_ffff_ffff_ffff_ffff_ffff <= x <= 0x7fff_ffff_ffff_ffff_ffff_ffff_ffff_ffff,
        ensures
            Decimal::of_scaled(x, scale).wf(),
            Decimal::of_scaled(x, scale).scaled() == x,
    {
        let unit = pow10(scale as nat) as int;
        lemma_pow10_positive(scale as nat);
        let m = if x < 0 {
            -x
        } else {
            x
        };
        lemma_fundamental_div_mod(m, unit);
        let q = m / unit;
        let r = m % unit;
        assert(0 <= q <= m) by (nonlinear_arith)
            requires
                m == unit * q + r,
                0 <= r < unit,
                unit >= 1,
                m >= 0,
        ;
        assert(q * unit + r == m) by (nonlinear_arith)
            requires
                m == unit * q + r,
        ;
        lemma_pow10_values();
        lemma_pow10_monotonic(scale as nat, 30);
    }

    /// The number that is `x / 10^scale`.
    pub fn from_scaled(x: i128, scale: u8) -> (d: Decimal)
        requires
            scale <= 30,
            -0x7fff_ffff_ffff_ffff_ffff_ffff_ffff_ffff <= x,
        ensures
            d == Decimal::of_scaled(x as int, scale),
            d.wf(),
            d.scaled() == x,
    {
        let unit = pow10_exec(scale);
        proof {
            lemma_pow10_positive(scale as nat);
            Self::lemma_of_scaled(x as int, scale);
        }
        let negative = x < 0;
        let m: u128 = if negative {
            (-x) as u128
        } else {
            x as u128
        };
        Decimal { negative, whole: m / unit, frac: m % unit, scale }
    }

    /// The number rounded to `p` digits after the point, for a `p` below the
    /// scale: the whole part and the `p` digits that follow it.
    fn round_half_even(&self, p: u8) -> (r: (u128, u128))
        requires
            self.wf(),
            p < self.scale,
        ensures
            r.1 < pow10(p as nat),
            r.0 <= self.whole + 1,
            r.0 * pow10(p as nat) + r.1 == rounded(self.magnitude(), self.scale as nat, p as nat),
    {
        let ghost s = self.scale as nat;
        let u = pow10_exec(self.scale - p);
        let big = pow10_exec(p);
        proof {
            lemma_pow10_positive((s - p) as nat);
            lemma_pow10_positive(p as nat);
            lemma_pow10_add(p as nat, (s - p) as nat);
            lemma_pow10_values();
            lemma_pow10_monotonic((s - p) as nat, 30);
        }
        let q = self.frac / u;
        let r = self.frac % u;
        let ghost qq = self.whole as nat * big as nat + q as nat;
        proof {
            lemma_fundamental_div_mod(self.frac as int, u as int);
            lemma_quotient_bound(self.frac as nat, u as nat, big as nat);
            lemma_regroup(self.whole as nat, big as nat, u as nat, q as nat, r as nat);
            lemma_split(qq, r as nat, u as nat);
            lemma_parity(self.whole as nat, q as nat, p as nat);
        }
        let odd = if p == 0 {
            self.whole % 2 == 1
        } else {
            q % 2 == 1
        };
        assert(odd == (qq % 2 == 1));
        if 2 * r > u || (2 * r == u && odd) {
            if q + 1 == big {
                proof {
                    lemma_carry(self.whole as nat, big as nat, q as nat);
                }
                (self.whole + 1, 0)
            } else {
                (self.whole, q + 1)
            }
        } else {
            (self.whole, q)
        }
    }

    /// Without a precision the text holds the parts as they are.
    pub proof fn lemma_text_natural(self)
        requires
            self.wf(),
        ensures
            self.text(None) == parts_text(
                self.negative,
                self.whole as nat,
                self.frac as nat,
                self.scale as nat,
                0,
            ),
    {
        lemma_fixed_text(self.negative, self.whole as nat, self.frac as nat, self.scale as nat, 0);
    }

    /// With a precision that reaches the scale the text holds the parts as
    /// they are, and zeros behind them.
    pub proof fn lemma_text_exact(self, p: usize)
        requires
            self.wf(),
            p >= self.scale,
        ensures
            self.text(Some(p)) == parts_text(
                self.negative,
                self.whole as nat,
                self.frac as nat,
                self.scale as nat,
                (p - self.scale) as nat,
            ),
    {
        lemma_fixed_text(
            self.negative,
            self.whole as nat,
            self.frac as nat,
            self.scale as nat,
            (p - self.scale) as nat,
        );
    }

    /// With a precision below the scale the text holds the rounded parts.
    proof fn lemma_text_rounded(self, p: usize, w: nat, f: nat)
        requires
            self.wf(),
            p < self.scale,
            f < pow10(p as nat),
            w * pow10(p as nat) + f == rounded(self.magnitude(), self.scale as nat, p as nat),
        ensures
            self.text(Some(p)) == parts_text(self.negative, w, f, p as nat, 0),
    {
        lemma_fixed_text(self.negative, w, f, p as nat, 0);
    }

    /// The text without a precision is not empty and starts with the sign or a
    /// digit, never with the point.
    pub proof fn lemma_text_start(self)
        requires
            self.wf(),
        ensures
            self.text(None).len() > 0,
            self.text(None)[0] != '.',
    {
        self.lemma_text_natural();
        lemma_nat_text_start(self.whole as nat);
    }

    /// Appends the text of the number to `buf`.
    pub fn write(&self, buf: &mut String, precision: Option<usize>)
        requires
            self.wf(),
        ensures
            final(buf)@ == old(buf)@ + self.text(precision),
    {
        match precision {
            None => {
                Self::write_parts(buf, self.negative, self.whole, self.frac, self.scale, 0);
                proof {
                    self.lemma_text_natural();
                }
            },
            Some(p) => {
                if p >= self.scale as usize {
                    let extra = p - self.scale as usize;
                    Self::write_parts(buf, self.negative, self.whole, self.frac, self.scale, extra);
                    proof {
                        self.lemma_text_exact(p);
                    }
                } else {
                    let pp: u8 = p as u8;
                    let (w, f) = self.round_half_even(pp);
                    Self::write_parts(buf, self.negative, w, f, pp, 0);
                    proof {
                        self.lemma_text_rounded(p, w as nat, f as nat);
                    }
                }
            },
        }
    }
}

/// The digits of a number are not empty and start with a digit.
pub proof fn lemma_nat_text_start(n: nat)
    ensures
        nat_text(n).len() > 0,
        '0' <= nat_text(n)[0] <= '9',
    decreases n,
{
    if n >= 10 {
        lemma_nat_text_start(n / 10);
    }
}

/// The text of a number holds digits only.
pub proof fn lemma_nat_text_digits(n: nat)
    ensures
        nat_text(n).len() > 0,
        forall|i: int| 0 <= i < nat_text(n).len() ==> '0' <= #[trigger] nat_text(n)[i] <= '9',
    decreases n,
{
    if n >= 10 {
        lemma_nat_text_digits(n / 10);
    }
}

/// The padded text of a number holds as many characters as asked for, digits
/// only.
pub proof fn lemma_padded_text_digits(n: nat, width: nat)
    ensures
        padded_text(n, width).len() == width,
        forall|i: int|
            0 <= i < padded_text(n, width).len() ==> '0' <= #[trigger] padded_text(n, width)[i] <= '9',
    decreases width,
{
    if width > 0 {
        lemma_padded_text_digits(n / 10, (width - 1) as nat);
    }
}

/// With a precision the text holds exactly that many digits after the point,
/// and no point for a precision of zero: it is a minus sign where the number
/// is negative, then the digits of a whole number, then, for a precision above
/// zero, a point and that many digits.
pub proof fn lemma_fixed_text_shape(negative: bool, m: nat, p: nat)
    ensures
        ({
            let sign: int = if negative {
                1
            } else {
                0
            };
            let whole = nat_text(m / pow10(p));
            let t = fixed_text(negative, m, p);
            &&& whole.len() > 0
            &&& t.len() == sign + whole.len() + (if p > 0 {
                p + 1
            } else {
                0
            })
            &&& negative ==> t[0] == '-'
            &&& forall|i: int| sign <= i < sign + whole.len() ==> '0' <= #[trigger] t[i] <= '9'
            &&& p > 0 ==> t[sign + whole.len()] == '.'
            &&& forall|i: int| sign + whole.len() < i < t.len() ==> '0' <= #[trigger] t[i] <= '9'
        }),
{
    let whole = nat_text(m / pow10(p));
    let frac = padded_text(m % pow10(p), p);
    lemma_nat_text_digits(m / pow10(p));
    lemma_padded_text_digits(m % pow10(p), p);
    let sign: int = if negative {
        1
    } else {
        0
    };
    let t = fixed_text(negative, m, p);
    assert forall|i: int| sign <= i < sign + whole.len() implies '0' <= #[trigger] t[i] <= '9' by {
        assert(t[i] == whole[i - sign]);
    }
    assert forall|i: int| sign + whole.len() < i < t.len() implies '0' <= #[trigger] t[i] <= '9' by {
        assert(t[i] == frac[i - sign - whole.len() - 1]);
    }
}

proof fn lemma_quotient_bound(frac: nat, u: nat, big: nat)
    requires
        u > 0,
        frac < big * u,
    ensures
        frac / u < big,
{
    lemma_fundamental_div_mod(frac as int, u as int);
    let q = frac / u;
    let r = frac % u;
    assert(q < big) by (nonlinear_arith)
        requires
            frac == u * q + r,
            0 <= r,
            frac < big * u,
            u > 0,
    ;
}

proof fn lemma_regroup(whole: nat, big: nat, u: nat, q: nat, r: nat)
    ensures
        whole * (big * u) + (u * q + r) == (whole * big + q) * u + r,
{
    assert(whole * (big * u) + (u * q + r) == (whole * big + q) * u + r) by (nonlinear_arith);
}

proof fn lemma_parity(whole: nat, q: nat, p: nat)
    requires
        q < pow10(p),
    ensures
        p == 0 ==> whole * pow10(p) + q == whole,
        p > 0 ==> (whole * pow10(p) + q) % 2 == q % 2,
{
    if p == 0 {
        assert(whole * pow10(p) == whole) by (nonlinear_arith)
            requires
                pow10(p) == 1,
        ;
    } else {
        let half = 5 * pow10((p - 1) as nat);
        let a = whole * half;
        assert(whole * pow10(p) == 2 * a) by (nonlinear_arith)
            requires
                pow10(p) == 2 * half,
                a == whole * half,
        ;
        assert((2 * a + q) % 2 == q % 2);
    }
}

proof fn lemma_carry(whole: nat, big: nat, q: nat)
    requires
        q + 1 == big,
    ensures
        (whole + 1) * big + 0 == whole * big + q + 1,
{
    assert((whole + 1) * big == whole * big + big) by (nonlinear_arith);
}

/// The text of a number given by its whole part and the `width` digits after
/// the point, with `extra` zeros asked for beyond them.
proof fn lemma_fixed_text(negative: bool, whole: nat, frac: nat, width: nat, extra: nat)
    requires
        frac < pow10(width),
    ensures
        fixed_text(negative, (whole * pow10(width) + frac) * pow10(extra), width + extra) == parts_text(
            negative,
            whole,
            frac,
            width,
            extra,
        ),
        extra == 0 ==> (whole * pow10(width) + frac) * pow10(extra) == whole * pow10(width) + frac,
{
    let p = width + extra;
    let f2 = frac * pow10(extra);
    let m2 = (whole * pow10(width) + frac) * pow10(extra);
    lemma_pow10_add(width, extra);
    lemma_pow10_positive(extra);
    lemma_pow10_positive(p);
    assert(m2 == whole * pow10(p) + f2) by (nonlinear_arith)
        requires
            m2 == (whole * pow10(width) + frac) * pow10(extra),
            pow10(p) == pow10(width) * pow10(extra),
            f2 == frac * pow10(extra),
    ;
    assert(f2 < pow10(p)) by (nonlinear_arith)
        requires
            f2 == frac * pow10(extra),
            frac + 1 <= pow10(width),
            pow10(extra) > 0,
            pow10(p) == pow10(width) * pow10(extra),
    ;
    lemma_split(whole, f2, pow10(p));
    lemma_padded_shift(frac, width, extra);
    assert(seq!['.'] + (padded_text(frac, width) + zeros(extra)) =~= seq!['.'] + padded_text(frac, width)
        + zeros(extra));
    if extra == 0 {
        assert(m2 == whole * pow10(width) + frac) by (nonlinear_arith)
            requires
                m2 == (whole * pow10(width) + frac) * pow10(extra),
                pow10(extra) == 1,
        ;
    }
}

} // verus!
