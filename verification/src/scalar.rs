use vstd::prelude::*;

use crate::error::LabError;

verus! {

/// Largest magnitude, in micro-units, that a wire scalar may hold
/// (one million whole units).
pub const SCALAR_ABS_MAX: i64 = 1_000_000_000_000;

/// A numeric wire value (a voltage, current, power or resistance) held in
/// fixed-point micro-units.  The wire carries such values as plain decimal
/// text; this type pins down exactly which text is written and how replies
/// are read back.
#[derive(Clone, Copy, Debug, PartialEq, Eq, Structural)]
pub struct Scalar {
    pub micro: i64,
}

impl Scalar {
    /// The mathematical value in micro-units.
    pub open spec fn view(&self) -> int {
        self.micro as int
    }

    pub open spec fn wf(&self) -> bool {
        -SCALAR_ABS_MAX <= self.micro <= SCALAR_ABS_MAX
    }

    /// Builds a scalar from a micro-unit count, rejecting magnitudes the
    /// wire format does not cover.
    pub fn from_micro(micro: i64) -> (r: Result<Scalar, LabError>)
        ensures
            -SCALAR_ABS_MAX <= micro <= SCALAR_ABS_MAX ==> r == Ok::<Scalar, LabError>(
                Scalar { micro },
            ),
            !(-SCALAR_ABS_MAX <= micro <= SCALAR_ABS_MAX) ==> r == Err::<Scalar, LabError>(
                LabError::DomainLimit,
            ),
            r is Ok ==> r.unwrap().wf(),
    {
        if -SCALAR_ABS_MAX <= micro && micro <= SCALAR_ABS_MAX {
            Ok(Scalar { micro })
        } else {
            Err(LabError::DomainLimit)
        }
    }
}

pub open spec fn is_dec_digit(c: char) -> bool {
    '0' <= c && c <= '9'
}

pub open spec fn digit_val(c: char) -> int {
    c as int - '0' as int
}

pub open spec fn digit_char(d: int) -> char {
    if d == 0 {
        '0'
    } else if d == 1 {
        '1'
    } else if d == 2 {
        '2'
    } else if d == 3 {
        '3'
    } else if d == 4 {
        '4'
    } else if d == 5 {
        '5'
    } else if d == 6 {
        '6'
    } else if d == 7 {
        '7'
    } else if d == 8 {
        '8'
    } else {
        '9'
    }
}

/// Decimal digits of `n`, most significant first, no leading zeros
/// (a single zero for `n == 0`).
pub open spec fn dec_digits(n: nat) -> Seq<char>
    decreases n,
{
    if n < 10 {
        seq![digit_char(n as int)]
    } else {
        dec_digits(n / 10) + seq![digit_char((n % 10) as int)]
    }
}

/// Decimal digits of `n` padded with leading zeros to exactly `width`
/// digits; only the low `width` digits of `n` are kept.
pub open spec fn pad_digits(n: nat, width: nat) -> Seq<char>
    decreases width,
{
    if width == 0 {
        Seq::empty()
    } else {
        pad_digits(n / 10, (width - 1) as nat) + seq![digit_char((n % 10) as int)]
    }
}

/// The wire text of a non-negative micro-unit count: whole units, a dot,
/// then exactly six fraction digits.
pub open spec fn wire_of_nat(u: nat) -> Seq<char> {
    dec_digits(u / 1000000) + seq!['.'] + pad_digits(u % 1000000, 6)
}

/// The wire text of a micro-unit count: a leading minus for negative
/// values, then the magnitude.
pub open spec fn wire_of(m: int) -> Seq<char> {
    if m < 0 {
        seq!['-'] + wire_of_nat((-m) as nat)
    } else {
        wire_of_nat(m as nat)
    }
}

fn digit_str(d: u64) -> (r: &'static str)
    requires
        d < 10,
    ensures
        r@ =~= seq![digit_char(d as int)],
        r@.len() == 1,
{
    proof {
        reveal_strlit("0");
        reveal_strlit("1");
        reveal_strlit("2");
        reveal_strlit("3");
        reveal_strlit("4");
        reveal_strlit("5");
        reveal_strlit("6");
        reveal_strlit("7");
        reveal_strlit("8");
        reveal_strlit("9");
    }
    match d {
        0 => "0",
        1 => "1",
        2 => "2",
        3 => "3",
        4 => "4",
        5 => "5",
        6 => "6",
        7 => "7",
        8 => "8",
        _ => "9",
    }
}

/// Renders `n` in decimal, most significant digit first.
fn fmt_nat(n: u64) -> (r: String)
    ensures
        r@ == dec_digits(n as nat),
    decreases n,
{
    if n < 10 {
        String::from_str(digit_str(n))
    } else {
        let mut s = fmt_nat(n / 10);
        s.append(digit_str(n % 10));
        s
    }
}

/// Renders the low `width` digits of `n`, zero-padded.
fn fmt_padded(n: u64, width: u64) -> (r: String)
    ensures
        r@ == pad_digits(n as nat, width as nat),
    decreases width,
{
    if width == 0 {
        let s = String::new();
        proof {
            assert(s@ =~= pad_digits(n as nat, 0));
        }
        s
    } else {
        let mut s = fmt_padded(n / 10, width - 1);
        s.append(digit_str(n % 10));
        s
    }
}

impl Scalar {
    /// The decimal text this value takes on the wire.
    pub fn to_wire(&self) -> (r: String)
        requires
            self.wf(),
        ensures
            r@ == wire_of(self@),
    {
        if self.micro < 0 {
            let mag = (-self.micro) as u64;
            let mut s = String::from_str("-");
            proof {
                reveal_strlit("-");
                assert("-"@ =~= seq!['-']);
            }
            s.append(fmt_nat(mag / 1000000).as_str());
            s.append(".");
            proof {
                reveal_strlit(".");
                assert("."@ =~= seq!['.']);
            }
            s.append(fmt_padded(mag % 1000000, 6).as_str());
            proof {
                assert(s@ =~= wire_of(self@));
            }
            s
        } else {
            let mag = self.micro as u64;
            let mut s = fmt_nat(mag / 1000000);
            s.append(".");
            proof {
                reveal_strlit(".");
                assert("."@ =~= seq!['.']);
            }
            s.append(fmt_padded(mag % 1000000, 6).as_str());
            proof {
                assert(s@ =~= wire_of(self@));
            }
            s
        }
    }
}


/// First index at or after `i` that does not hold a decimal digit.
pub open spec fn digit_run_end(s: Seq<char>, i: int) -> int
    decreases s.len() - i,
{
    if i < 0 || i >= s.len() {
        i
    } else if is_dec_digit(s[i]) {
        digit_run_end(s, i + 1)
    } else {
        i
    }
}

/// The number written by a sequence of decimal digits, most significant
/// first; the empty sequence writes zero.
pub open spec fn digits_val(ds: Seq<char>) -> int
    decreases ds.len(),
{
    if ds.len() == 0 {
        0
    } else {
        digits_val(ds.drop_last()) * 10 + digit_val(ds.last())
    }
}

pub open spec fn pow10(e: nat) -> int
    decreases e,
{
    if e == 0 {
        1
    } else {
        10 * pow10((e - 1) as nat)
    }
}

/// Micro-units written by a fraction-digit sequence: the first six digits
/// count, shorter runs are scaled up, further digits are truncated away.
pub open spec fn frac_of(fs: Seq<char>) -> int {
    if fs.len() >= 6 {
        digits_val(fs.take(6))
    } else {
        digits_val(fs) * pow10((6 - fs.len()) as nat)
    }
}

pub open spec fn signed_val(neg: bool, v: int) -> int {
    if neg {
        -v
    } else {
        v
    }
}

pub open spec fn in_scalar_bounds(v: int) -> bool {
    -(SCALAR_ABS_MAX as int) <= v <= SCALAR_ABS_MAX as int
}

/// The value, in micro-units, that a reply line denotes, or `None` where
/// the text is not a plain decimal number within range.  The accepted
/// grammar is an optional sign, then digits with at most one dot and at
/// least one digit on one side of it; fraction digits past the sixth are
/// truncated.
pub open spec fn spec_parse(s: Seq<char>) -> Option<int> {
    if s.len() == 0 {
        None
    } else {
        let neg = s[0] == '-';
        let i0: int = if s[0] == '-' || s[0] == '+' {
            1
        } else {
            0
        };
        let e1 = digit_run_end(s, i0);
        if e1 == s.len() {
            if e1 > i0 {
                bounded(signed_val(neg, digits_val(s.subrange(i0, e1)) * 1000000))
            } else {
                None
            }
        } else if s[e1] == '.' {
            let e2 = digit_run_end(s, e1 + 1);
            if e2 == s.len() && (e1 > i0 || e2 > e1 + 1) {
                bounded(
                    signed_val(
                        neg,
                        digits_val(s.subrange(i0, e1)) * 1000000 + frac_of(
                            s.subrange(e1 + 1, e2),
                        ),
                    ),
                )
            } else {
                None
            }
        } else {
            None
        }
    }
}

pub open spec fn bounded(v: int) -> Option<int> {
    if in_scalar_bounds(v) {
        Some(v)
    } else {
        None
    }
}

proof fn lemma_dre_skip(s: Seq<char>, i: int)
    requires
        0 <= i < s.len(),
        is_dec_digit(s[i]),
    ensures
        digit_run_end(s, i) == digit_run_end(s, i + 1),
{
}

proof fn lemma_digits_val_snoc(ds: Seq<char>, c: char)
    ensures
        digits_val(ds + seq![c]) == digits_val(ds) * 10 + digit_val(c),
{
    let ds2 = ds + seq![c];
    assert(ds2.drop_last() =~= ds);
    assert(ds2.last() == c);
}

proof fn lemma_digits_val_bound(ds: Seq<char>)
    requires
        forall|j: int| 0 <= j < ds.len() ==> is_dec_digit(ds[j]),
    ensures
        0 <= digits_val(ds) < pow10(ds.len()),
    decreases ds.len(),
{
    if ds.len() > 0 {
        lemma_digits_val_bound(ds.drop_last());
        assert(is_dec_digit(ds.last()));
        assert(0 <= digit_val(ds.last()) <= 9);
        let p = pow10((ds.len() - 1) as nat);
        assert(digits_val(ds.drop_last()) * 10 + digit_val(ds.last()) < p * 10) by (nonlinear_arith)
            requires
                0 <= digits_val(ds.drop_last()) < p,
                0 <= digit_val(ds.last()) <= 9,
        ;
        assert(pow10(ds.len()) == 10 * p);
    }
}

fn is_digit_at(s: &str, i: usize) -> (r: bool)
    requires
        i < s@.len(),
    ensures
        r == is_dec_digit(s@[i as int]),
{
    let c = s.get_char(i);
    let u = c as u32;
    48 <= u && u <= 57
}

fn pow10_u64(e: u64) -> (r: u64)
    requires
        e <= 6,
    ensures
        r as int == pow10(e as nat),
{
    proof {
        reveal_with_fuel(pow10, 7);
    }
    if e == 0 {
        1
    } else if e == 1 {
        10
    } else if e == 2 {
        100
    } else if e == 3 {
        1_000
    } else if e == 4 {
        10_000
    } else if e == 5 {
        100_000
    } else {
        1_000_000
    }
}

/// Reads a decimal reply line back into micro-units, exactly as
/// [`spec_parse`] describes; any other text is a protocol error.
pub fn parse_wire(s: &str) -> (r: Result<Scalar, LabError>)
    ensures
        spec_parse(s@) is Some ==> r is Ok && r.unwrap()@ == spec_parse(s@).unwrap()
            && r.unwrap().wf(),
        spec_parse(s@) is None ==> r == Err::<Scalar, LabError>(LabError::Protocol),
{
    let len = s.unicode_len();
    if len == 0 {
        return Err(LabError::Protocol);
    }
    let c0 = s.get_char(0);
    let neg = c0 == '-';
    let signed = neg || c0 == '+';
    let i0: usize = if signed {
        1
    } else {
        0
    };
    // integer part
    let mut i = i0;
    let mut acc: u64 = 0;
    let mut over = false;
    while i < len && is_digit_at(s, i)
        invariant
            i0 <= i <= len,
            len == s@.len(),
            i0 <= 1,
            digit_run_end(s@, i0 as int) == digit_run_end(s@, i as int),
            forall|j: int| i0 <= j < i ==> is_dec_digit(s@[j]),
            !over ==> acc as int == digits_val(s@.subrange(i0 as int, i as int)) && acc
                <= 1_000_000,
            over ==> digits_val(s@.subrange(i0 as int, i as int)) > 1_000_000,
        decreases len - i,
    {
        let c = s.get_char(i);
        let d = (c as u32 - 48) as u64;
        proof {
            lemma_dre_skip(s@, i as int);
            let pre = s@.subrange(i0 as int, i as int);
            let post = s@.subrange(i0 as int, i as int + 1);
            assert(post =~= pre + seq![s@[i as int]]);
            lemma_digits_val_snoc(pre, s@[i as int]);
        }
        if over || acc > 100_000 || (acc == 100_000 && d > 0) {
            proof {
                if !over {
                    let pre = s@.subrange(i0 as int, i as int);
                    assert(digits_val(pre) * 10 + digit_val(s@[i as int]) > 1_000_000);
                }
                if over {
                    let pre = s@.subrange(i0 as int, i as int);
                    assert(digits_val(pre) * 10 + digit_val(s@[i as int]) > 1_000_000)
                        by (nonlinear_arith)
                        requires
                            digits_val(pre) > 1_000_000,
                            0 <= digit_val(s@[i as int]),
                    ;
                }
            }
            over = true;
        } else {
            acc = acc * 10 + d;
        }
        i += 1;
    }
    proof {
        assert(digit_run_end(s@, i as int) == i as int);
    }
    let e1 = i;
    // fraction part
    let mut facc: u64 = 0;
    let mut fcnt: u64 = 0;
    let mut has_dot = false;
    let mut fstart: usize = e1;
    if e1 < len {
        let c = s.get_char(e1);
        if c != '.' {
            return Err(LabError::Protocol);
        }
        has_dot = true;
        fstart = e1 + 1;
        let mut j = fstart;
        while j < len && is_digit_at(s, j)
            invariant
                fstart <= j <= len,
                len == s@.len(),
                fstart == e1 + 1,
                e1 < len,
                digit_run_end(s@, fstart as int) == digit_run_end(s@, j as int),
                forall|k: int| fstart <= k < j ==> is_dec_digit(s@[k]),
                fcnt as int == if j - fstart <= 6 {
                    j - fstart
                } else {
                    6int
                },
                facc as int == digits_val(
                    s@.subrange(fstart as int, fstart as int + fcnt as int),
                ),
                facc < 1_000_000,
            decreases len - j,
        {
            let c2 = s.get_char(j);
            let d = (c2 as u32 - 48) as u64;
            proof {
                lemma_dre_skip(s@, j as int);
            }
            if fcnt < 6 {
                proof {
                    let pre = s@.subrange(fstart as int, fstart as int + fcnt as int);
                    let post = s@.subrange(fstart as int, fstart as int + fcnt as int + 1);
                    assert(post =~= pre + seq![s@[j as int]]);
                    lemma_digits_val_snoc(pre, s@[j as int]);
                    lemma_digits_val_bound(pre);
                    reveal_with_fuel(pow10, 7);
                    assert(pow10(fcnt as nat) <= 100_000) by {
                        assert(fcnt as nat <= 5);
                    }
                    assert(digits_val(pre) * 10 + digit_val(s@[j as int]) < 1_000_000)
                        by (nonlinear_arith)
                        requires
                            0 <= digits_val(pre) < pow10(fcnt as nat),
                            pow10(fcnt as nat) <= 100_000,
                            0 <= digit_val(s@[j as int]) <= 9,
                    ;
                }
                facc = facc * 10 + d;
                fcnt += 1;
            }
            j += 1;
        }
        proof {
            assert(digit_run_end(s@, j as int) == j as int);
        }
        if j < len {
            return Err(LabError::Protocol);
        }
        if e1 == i0 && j == fstart {
            return Err(LabError::Protocol);
        }
    } else {
        if e1 == i0 {
            return Err(LabError::Protocol);
        }
    }
    if over {
        proof {
            let iv = digits_val(s@.subrange(i0 as int, e1 as int));
            assert(iv * 1000000 > 1_000_000_000_000int) by (nonlinear_arith)
                requires
                    iv > 1_000_000,
            ;
            if has_dot {
                let fs = s@.subrange(fstart as int, len as int);
                assert(forall|k: int|
                    0 <= k < fs.len() ==> is_dec_digit(#[trigger] fs[k]));
                lemma_frac_of_bounds(fs);
                assert(!in_scalar_bounds(signed_val(neg, iv * 1000000 + frac_of(fs))));
            } else {
                assert(!in_scalar_bounds(signed_val(neg, iv * 1000000)));
            }
            assert(spec_parse(s@) is None);
        }
        return Err(LabError::Protocol);
    }
    // scale the fraction to micro-units
    let scaled: u64 = if has_dot {
        let p = pow10_u64(6 - fcnt);
        proof {
            let fs = s@.subrange(fstart as int, len as int);
            let pre = s@.subrange(fstart as int, fstart as int + fcnt as int);
            lemma_digits_val_bound(pre);
            reveal_with_fuel(pow10, 7);
            if fs.len() >= 6 {
                assert(pre =~= fs.take(6));
                assert(fcnt == 6);
                assert(frac_of(fs) == facc as int);
            } else {
                assert(pre =~= fs);
                assert(frac_of(fs) == digits_val(fs) * pow10((6 - fs.len()) as nat));
            }
            lemma_pow10_add(fcnt as nat, (6 - fcnt) as nat);
            assert(facc as int * pow10((6 - fcnt) as nat) < 1_000_000) by (nonlinear_arith)
                requires
                    0 <= facc as int,
                    (facc as int) < pow10(fcnt as nat),
                    fcnt <= 6,
                    pow10(fcnt as nat) * pow10((6 - fcnt) as nat) == pow10(6),
                    pow10(6) == 1_000_000,
                    pow10((6 - fcnt) as nat) > 0,
            ;
            assert(facc as int * pow10((6 - fcnt) as nat) >= 0) by (nonlinear_arith)
                requires
                    0 <= facc as int,
                    pow10((6 - fcnt) as nat) > 0,
            ;
        }
        facc * p
    } else {
        0
    };
    let total: u64 = acc * 1_000_000 + scaled;
    proof {
        reveal_with_fuel(pow10, 7);
        if has_dot {
            let fs = s@.subrange(fstart as int, len as int);
            assert(scaled as int == frac_of(fs));
            assert(spec_parse(s@) == bounded(
                signed_val(
                    neg,
                    digits_val(s@.subrange(i0 as int, e1 as int)) * 1000000 + frac_of(fs),
                ),
            ));
        } else {
            assert(spec_parse(s@) == bounded(
                signed_val(neg, digits_val(s@.subrange(i0 as int, e1 as int)) * 1000000),
            ));
        }
        assert(spec_parse(s@) == bounded(signed_val(neg, total as int)));
    }
    if total > 1_000_000_000_000 {
        return Err(LabError::Protocol);
    }
    let micro: i64 = if neg {
        -(total as i64)
    } else {
        total as i64
    };
    Ok(Scalar { micro })
}

proof fn lemma_pow10_add(a: nat, b: nat)
    ensures
        pow10(a) * pow10(b) == pow10(a + b),
        pow10(b) > 0,
    decreases a,
{
    if a == 0 {
        lemma_pow10_pos(b);
    } else {
        lemma_pow10_add((a - 1) as nat, b);
        assert(pow10(a) * pow10(b) == 10 * (pow10((a - 1) as nat) * pow10(b)))
            by (nonlinear_arith)
            requires
                pow10(a) == 10 * pow10((a - 1) as nat),
        ;
    }
}

proof fn lemma_pow10_pos(e: nat)
    ensures
        pow10(e) > 0,
    decreases e,
{
    if e > 0 {
        lemma_pow10_pos((e - 1) as nat);
    }
}

proof fn lemma_frac_of_bounds(fs: Seq<char>)
    requires
        forall|k: int| 0 <= k < fs.len() ==> is_dec_digit(fs[k]),
    ensures
        0 <= frac_of(fs) < 1_000_000,
{
    reveal_with_fuel(pow10, 7);
    if fs.len() >= 6 {
        lemma_digits_val_bound(fs.take(6));
        assert(forall|k: int| 0 <= k < fs.take(6).len() ==> is_dec_digit(fs.take(6)[k]));
    } else {
        lemma_digits_val_bound(fs);
        lemma_pow10_add(fs.len() as nat, (6 - fs.len()) as nat);
        assert(digits_val(fs) * pow10((6 - fs.len()) as nat) < 1_000_000) by (nonlinear_arith)
            requires
                0 <= digits_val(fs) < pow10(fs.len() as nat),
                pow10(fs.len() as nat) * pow10((6 - fs.len()) as nat) == 1_000_000,
                pow10((6 - fs.len()) as nat) > 0,
        ;
        assert(digits_val(fs) * pow10((6 - fs.len()) as nat) >= 0) by (nonlinear_arith)
            requires
                0 <= digits_val(fs),
                pow10((6 - fs.len()) as nat) > 0,
        ;
    }
}


proof fn lemma_dec_digits_shape(n: nat)
    ensures
        dec_digits(n).len() >= 1,
        forall|j: int| 0 <= j < dec_digits(n).len() ==> is_dec_digit(#[trigger] dec_digits(n)[j]),
    decreases n,
{
    if n >= 10 {
        lemma_dec_digits_shape(n / 10);
    }
}

proof fn lemma_pad_digits_shape(n: nat, w: nat)
    ensures
        pad_digits(n, w).len() == w,
        forall|j: int| 0 <= j < w ==> is_dec_digit(#[trigger] pad_digits(n, w)[j]),
    decreases w,
{
    if w > 0 {
        lemma_pad_digits_shape(n / 10, (w - 1) as nat);
    }
}

proof fn lemma_digits_val_dec(n: nat)
    ensures
        digits_val(dec_digits(n)) == n,
    decreases n,
{
    if n < 10 {
        let ds = seq![digit_char(n as int)];
        assert(dec_digits(n) == ds);
        assert(ds.drop_last() =~= Seq::<char>::empty());
        assert(digits_val(ds.drop_last()) == 0);
        assert(digits_val(ds) == digits_val(ds.drop_last()) * 10 + digit_val(ds.last()));
        assert(ds.last() == digit_char(n as int));
        assert(digit_val(digit_char(n as int)) == n);
    } else {
        lemma_digits_val_dec(n / 10);
        lemma_digits_val_snoc(dec_digits(n / 10), digit_char((n % 10) as int));
    }
}

proof fn lemma_digits_val_pad(n: nat, w: nat)
    requires
        n < pow10(w),
    ensures
        digits_val(pad_digits(n, w)) == n,
    decreases w,
{
    if w == 0 {
        assert(pow10(0) == 1);
    } else {
        assert(n / 10 < pow10((w - 1) as nat)) by (nonlinear_arith)
            requires
                n < pow10(w),
                pow10(w) == 10 * pow10((w - 1) as nat),
        ;
        lemma_digits_val_pad(n / 10, (w - 1) as nat);
        lemma_digits_val_snoc(pad_digits(n / 10, (w - 1) as nat), digit_char((n % 10) as int));
    }
}

proof fn lemma_dre_all_digits(s: Seq<char>, i: int, j: int)
    requires
        0 <= i <= j <= s.len(),
        forall|k: int| i <= k < j ==> is_dec_digit(s[k]),
        j == s.len() || !is_dec_digit(s[j]),
    ensures
        digit_run_end(s, i) == j,
    decreases j - i,
{
    if i < j {
        lemma_dre_all_digits(s, i + 1, j);
    }
}

proof fn lemma_wire_nat_parsed(s: Seq<char>, off: int, u: nat)
    requires
        0 <= off <= 1,
        s.len() == off + wire_of_nat(u).len(),
        s.subrange(off, s.len() as int) =~= wire_of_nat(u),
        off == 1 ==> !is_dec_digit(s[0]) && s[0] != '.',
        u <= SCALAR_ABS_MAX as int,
    ensures
        digit_run_end(s, off) == off + dec_digits(u / 1000000).len(),
        ({
            let e1 = off + dec_digits(u / 1000000).len();
            &&& e1 < s.len()
            &&& s[e1] == '.'
            &&& digit_run_end(s, e1 + 1) == s.len()
            &&& digits_val(s.subrange(off, e1)) * 1000000 + frac_of(
                s.subrange(e1 + 1, s.len() as int),
            ) == u
        }),
{
    let dd = dec_digits(u / 1000000);
    let pad = pad_digits(u % 1000000, 6);
    lemma_dec_digits_shape(u / 1000000);
    lemma_pad_digits_shape(u % 1000000, 6);
    let e1 = off + dd.len() as int;
    let t = s.subrange(off, s.len() as int);
    assert(t == dd + seq!['.'] + pad);
    assert forall|k: int| off <= k < e1 implies is_dec_digit(s[k]) by {
        assert(s[k] == t[k - off]);
        assert(t[k - off] == dd[k - off]);
    }
    assert(s[e1] == t[e1 - off]);
    assert(t[dd.len() as int] == '.');
    lemma_dre_all_digits(s, off, e1);
    assert forall|k: int| e1 + 1 <= k < s.len() implies is_dec_digit(s[k]) by {
        assert(s[k] == t[k - off]);
        assert(t[k - off] == pad[k - (e1 + 1)]);
    }
    lemma_dre_all_digits(s, e1 + 1, s.len() as int);
    assert(s.subrange(off, e1) =~= dd);
    assert forall|k: int| 0 <= k < pad.len() implies s.subrange(e1 + 1, s.len() as int)[k]
        == pad[k] by {
        assert(s.subrange(e1 + 1, s.len() as int)[k] == s[e1 + 1 + k]);
        assert(s[e1 + 1 + k] == t[e1 + 1 + k - off]);
        assert(t[e1 + 1 + k - off] == pad[k]);
    }
    assert(s.subrange(e1 + 1, s.len() as int) =~= pad);
    lemma_digits_val_dec(u / 1000000);
    assert(pad.len() == 6);
    assert(frac_of(pad) == digits_val(pad.take(6)));
    assert(pad.take(6) =~= pad);
    assert(u % 1000000 < pow10(6)) by {
        reveal_with_fuel(pow10, 7);
    }
    lemma_digits_val_pad(u % 1000000, 6);
    vstd::arithmetic::div_mod::lemma_fundamental_div_mod(u as int, 1000000);
}

/// The wire text of any in-range scalar reads back as exactly that scalar:
/// writing a set-point and querying it over an echoing channel returns the
/// value unchanged.
pub proof fn lemma_wire_round_trip(m: int)
    requires
        -(SCALAR_ABS_MAX as int) <= m <= SCALAR_ABS_MAX as int,
    ensures
        spec_parse(wire_of(m)) == Some(m),
{
    if m < 0 {
        let u = (-m) as nat;
        let s = wire_of(m);
        let body = wire_of_nat(u);
        lemma_dec_digits_shape(u / 1000000);
        assert(s.subrange(1, s.len() as int) =~= body);
        assert(s[0] == '-');
        lemma_wire_nat_parsed(s, 1, u);
        let e1: int = 1 + dec_digits(u / 1000000).len() as int;
        assert(e1 > 1);
        assert(spec_parse(s) == bounded(
            signed_val(
                true,
                digits_val(s.subrange(1, e1)) * 1000000 + frac_of(s.subrange(e1 + 1, s.len() as int)),
            ),
        ));
        assert(spec_parse(s) == Some(m));
    } else {
        let u = m as nat;
        let s = wire_of(m);
        assert(s =~= wire_of_nat(u));
        lemma_dec_digits_shape(u / 1000000);
        lemma_wire_nat_parsed(s, 0, u);
        let e1: int = dec_digits(u / 1000000).len() as int;
        assert(!is_dec_digit('-') && !is_dec_digit('+'));
        assert(is_dec_digit(s[0]));
        assert(spec_parse(s) == bounded(
            signed_val(
                false,
                digits_val(s.subrange(0, e1)) * 1000000 + frac_of(s.subrange(e1 + 1, s.len() as int)),
            ),
        ));
        assert(spec_parse(s) == Some(m));
    }
}

} // verus!
