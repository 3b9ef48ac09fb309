use vstd::prelude::*;

verus! {

/// A finite decimal number `(-1)^negative * mantissa * 10^exponent`, as the
/// shortest decimal that identifies a measured value.
///
/// A well-formed value has no trailing zero in its mantissa (zero itself is
/// written with exponent 0), so each number has one representation.
///
/// Numbers are rounded from these digits: for a float read through its
/// shortest notation this agrees with rounding the float itself, except for
/// subnormal floats and for digits that end exactly halfway between two
/// roundings.
#[derive(Clone, Copy, Debug, PartialEq, Eq)]
pub struct Decimal {
    pub negative: bool,
    pub mantissa: u64,
    pub exponent: i32,
}

/// Largest magnitude of a decimal exponent that a `Decimal` may carry.
pub const MAX_EXPONENT: i32 = 400;

pub open spec fn pow10(k: nat) -> nat
    decreases k,
{
    if k == 0 {
        1
    } else {
        10 * pow10((k - 1) as nat)
    }
}

pub open spec fn digit_char(d: nat) -> char {
    if d == 0 {
        '0'
    } else if d == 1 {
        '1'
    } else if d == 2 {
        '2'
    } else if d == 3 {
        '3'
    } else if d == 4 {
        '4'
    } else if d == 5 {
        '5'
    } else if d == 6 {
        '6'
    } else if d == 7 {
        '7'
    } else if d == 8 {
        '8'
    } else {
        '9'
    }
}

/// The decimal digits of `n`, without leading zeros (`"0"` for zero).
pub open spec fn nat_digits(n: nat) -> Seq<char>
    decreases n,
{
    if n < 10 {
        seq![digit_char(n)]
    } else {
        nat_digits(n / 10) + seq![digit_char(n % 10)]
    }
}

/// The last `w` decimal digits of `n`, padded with leading zeros.
pub open spec fn padded(n: nat, w: nat) -> Seq<char>
    decreases w,
{
    if w == 0 {
        seq![]
    } else {
        padded(n / 10, (w - 1) as nat) + seq![digit_char(n % 10)]
    }
}

/// Number of decimal digits of `n` (one for zero).
pub open spec fn ndigits(n: nat) -> nat
    decreases n,
{
    if n < 10 {
        1
    } else {
        1 + ndigits(n / 10)
    }
}

/// An integer in decimal, with a leading `-` when negative.
pub open spec fn int_text(i: int) -> Seq<char> {
    if i < 0 {
        "-"@ + nat_digits((-i) as nat)
    } else {
        nat_digits(i as nat)
    }
}

pub open spec fn zeros(k: nat) -> Seq<char> {
    Seq::new(k, |i: int| '0')
}

impl Decimal {
    pub open spec fn wf(&self) -> bool {
        &&& -MAX_EXPONENT <= self.exponent <= MAX_EXPONENT
        &&& self.mantissa == 0 ==> self.exponent == 0
        &&& self.mantissa != 0 ==> self.mantissa % 10 != 0
    }

    pub open spec fn sign_text(&self) -> Seq<char> {
        if self.negative {
            "-"@
        } else {
            seq![]
        }
    }

    /// The mantissa rounded to seven significant digits (ties to even), with
    /// the decimal exponent of its leading digit.
    pub open spec fn rounded7(&self) -> (nat, int) {
        let m = self.mantissa as nat;
        let n = ndigits(m);
        let e = self.exponent + n - 1;
        if n <= 7 {
            (m * pow10((7 - n) as nat), e)
        } else {
            let p = pow10((n - 7) as nat);
            let q = m / p;
            let r = m % p;
            let up = 2 * r > p || (2 * r == p && q % 2 == 1);
            let q1 = if up {
                q + 1
            } else {
                q
            };
            if q1 == pow10(7) {
                (pow10(6), e + 1)
            } else {
                (q1, e)
            }
        }
    }

    /// Scientific notation with six digits after the point: `1.576000e1`.
    pub open spec fn sci_text(&self) -> Seq<char> {
        self.sign_text() + if self.mantissa == 0 {
            "0.000000e0"@
        } else {
            let (q, e) = self.rounded7();
            seq![digit_char(q / pow10(6))] + "."@ + padded(q % pow10(6), 6) + "e"@ + int_text(e)
        }
    }

    /// Plain positional notation with as many digits as the value has:
    /// `15.76`, `0.0000196`, `2000`.
    pub open spec fn plain_text(&self) -> Seq<char> {
        let m = self.mantissa as nat;
        self.sign_text() + if self.exponent >= 0 {
            nat_digits(m) + zeros(self.exponent as nat)
        } else {
            let k = (-self.exponent) as nat;
            if ndigits(m) > k {
                nat_digits(m / pow10(k)) + "."@ + padded(m % pow10(k), k)
            } else {
                "0."@ + padded(m, k)
            }
        }
    }
}

proof fn lemma_pow10_pos(k: nat)
    ensures
        pow10(k) >= 1,
    decreases k,
{
    if k > 0 {
        lemma_pow10_pos((k - 1) as nat);
    }
}

proof fn lemma_pow10_mono(a: nat, b: nat)
    requires
        a <= b,
    ensures
        pow10(a) <= pow10(b),
    decreases b,
{
    if a < b {
        lemma_pow10_mono(a, (b - 1) as nat);
    }
}

proof fn lemma_ndigits_bound(m: nat, k: nat)
    requires
        k >= 1,
        m < pow10(k),
    ensures
        ndigits(m) <= k,
    decreases k,
{
    if m >= 10 {
        let p = pow10((k - 1) as nat);
        if k == 1 {
            assert(false);
        }
        assert(m / 10 < p) by (nonlinear_arith)
            requires
                m < 10 * p,
        ;
        lemma_ndigits_bound(m / 10, (k - 1) as nat);
    }
}

/// A number of `u64` has at most twenty digits.
proof fn lemma_ndigits_u64(m: nat)
    requires
        m <= u64::MAX,
    ensures
        ndigits(m) <= 20,
{
    reveal_with_fuel(pow10, 21);
    lemma_ndigits_bound(m, 20);
}

fn digit_str(d: u64) -> (r: &'static str)
    requires
        d < 10,
    ensures
        r@ == seq![digit_char(d as nat)],
{
    if d == 0 {
        proof { reveal_strlit("0"); }
        "0"
    } else if d == 1 {
        proof { reveal_strlit("1"); }
        "1"
    } else if d == 2 {
        proof { reveal_strlit("2"); }
        "2"
    } else if d == 3 {
        proof { reveal_strlit("3"); }
        "3"
    } else if d == 4 {
        proof { reveal_strlit("4"); }
        "4"
    } else if d == 5 {
        proof { reveal_strlit("5"); }
        "5"
    } else if d == 6 {
        proof { reveal_strlit("6"); }
        "6"
    } else if d == 7 {
        proof { reveal_strlit("7"); }
        "7"
    } else if d == 8 {
        proof { reveal_strlit("8"); }
        "8"
    } else {
        proof { reveal_strlit("9"); }
        "9"
    }
}

/// Appends the decimal digits of `n`.
pub fn append_nat(out: &mut String, n: u64)
    ensures
        final(out)@ == old(out)@ + nat_digits(n as nat),
    decreases n,
{
    if n >= 10 {
        append_nat(out, n / 10);
    }
    out.append(digit_str(n % 10));
    assert(final(out)@ =~= old(out)@ + nat_digits(n as nat));
}

/// Appends the last `w` digits of `n`, padded with leading zeros.
pub fn append_padded(out: &mut String, n: u64, w: u32)
    ensures
        final(out)@ == old(out)@ + padded(n as nat, w as nat),
    decreases w,
{
    if w > 0 {
        append_padded(out, n / 10, w - 1);
        out.append(digit_str(n % 10));
        assert(final(out)@ =~= old(out)@ + padded(n as nat, w as nat));
    } else {
        assert(final(out)@ =~= old(out)@ + padded(n as nat, w as nat));
    }
}

fn append_int(out: &mut String, i: i64)
    ensures
        final(out)@ == old(out)@ + int_text(i as int),
{
    if i < 0 {
        out.append("-");
        let a: u64 = if i == i64::MIN {
            9223372036854775808u64
        } else {
            (-i) as u64
        };
        append_nat(out, a);
        assert(final(out)@ =~= old(out)@ + int_text(i as int));
    } else {
        append_nat(out, i as u64);
    }
}

fn append_zeros(out: &mut String, k: u32)
    ensures
        final(out)@ == old(out)@ + zeros(k as nat),
{
    let mut i: u32 = 0;
    while i < k
        invariant
            i <= k,
            out@ == old(out)@ + zeros(i as nat),
        decreases k - i,
    {
        out.append("0");
        proof { reveal_strlit("0"); }
        i = i + 1;
        assert(out@ =~= old(out)@ + zeros(i as nat));
    }
}

fn count_digits(n: u64) -> (r: u32)
    ensures
        r as nat == ndigits(n as nat),
        r <= 20,
    decreases n,
{
    proof { lemma_ndigits_u64(n as nat); }
    if n < 10 {
        1
    } else {
        1 + count_digits(n / 10)
    }
}

fn pow10_exec(k: u32) -> (r: u64)
    requires
        k <= 19,
    ensures
        r as nat == pow10(k as nat),
{
    proof {
        reveal_with_fuel(pow10, 20);
    }
    let mut p: u64 = 1;
    let mut i: u32 = 0;
    while i < k
        invariant
            i <= k <= 19,
            p as nat == pow10(i as nat),
            pow10(19) == 10000000000000000000nat,
        decreases k - i,
    {
        proof {
            lemma_pow10_mono((i + 1) as nat, 19);
        }
        p = p * 10;
        i = i + 1;
    }
    p
}

proof fn lemma_pow10_add(a: nat, b: nat)
    ensures
        pow10(a + b) == pow10(a) * pow10(b),
    decreases a,
{
    if a > 0 {
        let c = (a - 1) as nat;
        lemma_pow10_add(c, b);
        let x = pow10(c);
        let y = pow10(b);
        assert(a + b == (c + b) + 1);
        assert(pow10(a + b) == 10 * pow10(c + b));
        assert(pow10(a) == 10 * x);
        assert(10 * (x * y) == (10 * x) * y) by (nonlinear_arith);
    } else {
        assert(pow10(a) == 1);
        assert(a + b == b);
    }
}

/// Every number is below ten to the power of its digit count.
proof fn lemma_below_pow10_ndigits(m: nat)
    ensures
        m < pow10(ndigits(m)),
    decreases m,
{
    reveal_with_fuel(pow10, 2);
    if m >= 10 {
        lemma_below_pow10_ndigits(m / 10);
        let p = pow10(ndigits(m / 10));
        assert(pow10(ndigits(m)) == 10 * p);
        assert(m < 10 * p) by (nonlinear_arith)
            requires
                m / 10 < p,
        ;
    }
}

proof fn lemma_pow10_small()
    ensures
        pow10(6) == 1000000,
        pow10(7) == 10000000,
{
    reveal_with_fuel(pow10, 8);
}

/// Rounds a nonzero mantissa to seven significant digits.
fn round7(x: &Decimal) -> (r: (u64, i64))
    requires
        x.wf(),
        x.mantissa != 0,
    ensures
        (r.0 as nat, r.1 as int) == x.rounded7(),
        r.0 < 10000000,
{
    proof {
        lemma_pow10_small();
    }
    let m = x.mantissa;
    let n = count_digits(m);
    let e: i64 = x.exponent as i64 + n as i64 - 1;
    proof {
        lemma_below_pow10_ndigits(m as nat);
    }
    if n <= 7 {
        let p = pow10_exec(7 - n);
        proof {
            lemma_pow10_add(n as nat, (7 - n) as nat);
            assert(m * p < 10000000) by (nonlinear_arith)
                requires
                    m < pow10(n as nat),
                    pow10(n as nat) * p == 10000000,
            ;
        }
        (m * p, e)
    } else {
        let p = pow10_exec(n - 7);
        proof {
            lemma_pow10_add((n - 7) as nat, 7);
            lemma_pow10_pos((n - 7) as nat);
            assert(m / p < 10000000) by (nonlinear_arith)
                requires
                    m < p * 10000000,
                    p >= 1,
            ;
        }
        let q0 = m / p;
        let r = m % p;
        let up = r > p - r || (r == p - r && q0 % 2 == 1);
        let q1 = if up {
            q0 + 1
        } else {
            q0
        };
        if q1 == 10000000 {
            (1000000, e + 1)
        } else {
            (q1, e)
        }
    }
}

/// Appends `x` in scientific notation with six digits after the point.
pub fn append_sci(out: &mut String, x: &Decimal)
    requires
        x.wf(),
    ensures
        final(out)@ == old(out)@ + x.sci_text(),
{
    let ghost start = out@;
    proof {
        lemma_pow10_small();
    }
    if x.negative {
        out.append("-");
    }
    if x.mantissa == 0 {
        out.append("0.000000e0");
    } else {
        let (q, e) = round7(x);
        assert(q / 1000000 < 10) by (nonlinear_arith)
            requires
                q < 10000000,
        ;
        out.append(digit_str(q / 1000000));
        out.append(".");
        append_padded(out, q % 1000000, 6);
        out.append("e");
        append_int(out, e);
    }
    assert(out@ =~= start + x.sci_text());
}

/// Appends `x` in plain positional notation.
pub fn append_plain(out: &mut String, x: &Decimal)
    requires
        x.wf(),
    ensures
        final(out)@ == old(out)@ + x.plain_text(),
{
    let ghost start = out@;
    if x.negative {
        out.append("-");
    }
    let m = x.mantissa;
    if x.exponent >= 0 {
        append_nat(out, m);
        append_zeros(out, x.exponent as u32);
    } else {
        let k: u32 = (-x.exponent) as u32;
        let n = count_digits(m);
        if n > k {
            let p = pow10_exec(k);
            proof {
                lemma_pow10_pos(k as nat);
            }
            append_nat(out, m / p);
            out.append(".");
            append_padded(out, m % p, k);
        } else {
            out.append("0.");
            append_padded(out, m, k);
        }
    }
    assert(out@ =~= start + x.plain_text());
}

impl Decimal {
    /// Whether the value is well formed.
    pub fn is_wf(&self) -> (r: bool)
        ensures
            r == self.wf(),
    {
        -MAX_EXPONENT <= self.exponent && self.exponent <= MAX_EXPONENT && (self.mantissa != 0
            || self.exponent == 0) && (self.mantissa == 0 || self.mantissa % 10 != 0)
    }

    /// The shortest scientific notation of the number: `1.576e1`, `-2e-16`,
    /// `0e0`.
    pub open spec fn short_text(&self) -> Seq<char> {
        let ds = nat_digits(self.mantissa as nat);
        self.sign_text() + if self.mantissa == 0 {
            "0e0"@
        } else {
            seq![ds[0]] + (if ds.len() > 1 {
                "."@ + ds.skip(1)
            } else {
                seq![]
            }) + "e"@ + int_text(self.exponent + ds.len() - 1)
        }
    }

    /// Reads a number in shortest scientific notation, as `format!("{:e}")`
    /// writes a float. Only text that the result writes back exactly is
    /// accepted.
    pub fn from_sci(s: &str) -> (r: Option<Decimal>)
        ensures
            r matches Some(d) ==> d.wf() && d.short_text() == s@,
    {
        let n = s.unicode_len();
        let mut i: usize = 0;
        let negative = n > 0 && s.get_char(0) == '-';
        if negative {
            i = 1;
        }
        let mut mantissa: u64 = 0;
        let mut frac: u32 = 0;
        let mut in_frac = false;
        while i < n && s.get_char(i) != 'e'
            invariant
                i <= n == s@.len(),
                frac <= 1000,
            decreases n - i,
        {
            let c = s.get_char(i);
            if c == '.' {
                in_frac = true;
            } else if '0' <= c && c <= '9' {
                let d = (c as u32 - '0' as u32) as u64;
                if mantissa > (u64::MAX - d) / 10 {
                    return None;
                }
                mantissa = mantissa * 10 + d;
                if in_frac {
                    if frac >= 1000 {
                        return None;
                    }
                    frac = frac + 1;
                }
            } else {
                return None;
            }
            i = i + 1;
        }
        if i >= n {
            return None;
        }
        i = i + 1;
        let exp_negative = i < n && s.get_char(i) == '-';
        if exp_negative {
            i = i + 1;
        }
        let mut exp: i64 = 0;
        while i < n
            invariant
                i <= n == s@.len(),
                0 <= exp <= 10000,
            decreases n - i,
        {
            let c = s.get_char(i);
            if '0' <= c && c <= '9' {
                exp = exp * 10 + (c as u32 - '0' as u32) as i64;
                if exp > 10000 {
                    return None;
                }
            } else {
                return None;
            }
            i = i + 1;
        }
        let mut e: i64 = if exp_negative {
            -exp
        } else {
            exp
        };
        e = e - frac as i64;
        assert(frac <= 1000);
        while mantissa != 0 && mantissa % 10 == 0
            invariant
                -20000 <= e <= 20000,
            decreases mantissa,
        {
            mantissa = mantissa / 10;
            if e >= 20000 {
                return None;
            }
            e = e + 1;
        }
        if mantissa == 0 {
            e = 0;
        }
        if e < -(MAX_EXPONENT as i64) || e > MAX_EXPONENT as i64 {
            return None;
        }
        let d = Decimal { negative, mantissa, exponent: e as i32 };
        let mut back = String::new();
        append_short(&mut back, &d);
        if same_text(back.as_str(), s) {
            Some(d)
        } else {
            None
        }
    }
}

/// Appends the shortest scientific notation of `x`.
pub fn append_short(out: &mut String, x: &Decimal)
    requires
        x.wf(),
    ensures
        final(out)@ == old(out)@ + x.short_text(),
{
    let ghost start = out@;
    if x.negative {
        out.append("-");
    }
    if x.mantissa == 0 {
        out.append("0e0");
    } else {
        let mut ds = String::new();
        append_nat(&mut ds, x.mantissa);
        let k = ds.as_str().unicode_len();
        proof {
            lemma_nat_digits_len(x.mantissa as nat);
            lemma_ndigits_u64(x.mantissa as nat);
        }
        out.append(ds.as_str().substring_char(0, 1));
        assert(ds@.subrange(0, 1) =~= seq![ds@[0]]);
        if k > 1 {
            out.append(".");
            out.append(ds.as_str().substring_char(1, k));
            assert(ds@.subrange(1, k as int) =~= ds@.skip(1));
        }
        out.append("e");
        append_int(out, x.exponent as i64 + k as i64 - 1);
    }
    assert(out@ =~= start + x.short_text());
}

proof fn lemma_nat_digits_len(n: nat)
    ensures
        nat_digits(n).len() == ndigits(n),
        ndigits(n) >= 1,
    decreases n,
{
    if n >= 10 {
        lemma_nat_digits_len(n / 10);
    }
}

/// Character-wise equality of two texts.
pub fn same_text(a: &str, b: &str) -> (r: bool)
    ensures
        r == (a@ == b@),
{
    let n = a.unicode_len();
    if n != b.unicode_len() {
        return false;
    }
    let mut i: usize = 0;
    while i < n
        invariant
            i <= n == a@.len() == b@.len(),
            forall|j: int| 0 <= j < i ==> a@[j] == b@[j],
        decreases n - i,
    {
        if a.get_char(i) != b.get_char(i) {
            return false;
        }
        i = i + 1;
    }
    assert(a@ =~= b@);
    true
}

} // verus!
