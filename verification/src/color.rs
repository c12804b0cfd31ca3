//! Colors: four rational channels in `[0, 1]` (not enforced), named
//! constants, and parsing from a comma-separated numeric string.
//!
//! The accepted numeric grammar is an exact decimal literal: an optional
//! sign, digits, and an optional fractional part, with at most
//! [`MAX_NUMBER_DIGITS`] digits in all so that every value is representable.
//! This is deliberately narrower than a float parser: exponent forms such
//! as `1e3`, the words `inf` and `NaN`, and longer literals have no exact
//! place in the rational model and are rejected as parse errors.
//! One number gives a grey with alpha one, three give rgb with alpha one,
//! four give rgba; any other count is a parse error carrying the input.

use vstd::prelude::*;
use vstd::string::StringSliceAdditionalSpecFns;

use crate::rat::{ratio_int, ratio_neg, ratio_wf, Rat, Ratio};

verus! {

/// A color in ghost space: four unbounded rational channels.
pub struct ColorV {
    pub r: Ratio,
    pub g: Ratio,
    pub b: Ratio,
    pub a: Ratio,
}

pub open spec fn color_wf(c: ColorV) -> bool {
    ratio_wf(c.r) && ratio_wf(c.g) && ratio_wf(c.b) && ratio_wf(c.a)
}

/// A color: red, green, blue and alpha, each an exact rational.
#[derive(Clone, Copy, Debug, PartialEq, Eq, Structural)]
pub struct Color {
    pub r: Rat,
    pub g: Rat,
    pub b: Rat,
    pub a: Rat,
}

impl View for Color {
    type V = ColorV;

    open spec fn view(&self) -> ColorV {
        ColorV { r: self.r@, g: self.g@, b: self.b@, a: self.a@ }
    }
}

impl Color {
    pub open spec fn wf(self) -> bool {
        color_wf(self@)
    }

    pub fn rgb(r: Rat, g: Rat, b: Rat) -> (c: Color)
        ensures
            c@ == (ColorV { r: r@, g: g@, b: b@, a: ratio_int(1) }),
    {
        Color { r, g, b, a: Rat::one() }
    }

    pub fn rgba(r: Rat, g: Rat, b: Rat, a: Rat) -> (c: Color)
        ensures
            c@ == (ColorV { r: r@, g: g@, b: b@, a: a@ }),
    {
        Color { r, g, b, a }
    }

    /// All three color channels at `v`, alpha one.
    pub fn grey(v: Rat) -> (c: Color)
        ensures
            c@ == (ColorV { r: v@, g: v@, b: v@, a: ratio_int(1) }),
    {
        Color { r: v, g: v, b: v, a: Rat::one() }
    }

    /// Channels given as bytes, each mapped to the exact ratio `v / 255`.
    pub fn rgb8(r: u8, g: u8, b: u8) -> (c: Color)
        ensures
            c@ == (ColorV {
                r: Ratio { n: r as int, d: 255 },
                g: Ratio { n: g as int, d: 255 },
                b: Ratio { n: b as int, d: 255 },
                a: ratio_int(1),
            }),
            c.wf(),
    {
        Color {
            r: Rat::new(r as i64, 255),
            g: Rat::new(g as i64, 255),
            b: Rat::new(b as i64, 255),
            a: Rat::one(),
        }
    }

    pub fn rgba8(r: u8, g: u8, b: u8, a: u8) -> (c: Color)
        ensures
            c@ == (ColorV {
                r: Ratio { n: r as int, d: 255 },
                g: Ratio { n: g as int, d: 255 },
                b: Ratio { n: b as int, d: 255 },
                a: Ratio { n: a as int, d: 255 },
            }),
            c.wf(),
    {
        Color {
            r: Rat::new(r as i64, 255),
            g: Rat::new(g as i64, 255),
            b: Rat::new(b as i64, 255),
            a: Rat::new(a as i64, 255),
        }
    }

    pub fn grey8(v: u8) -> (c: Color)
        ensures
            c@ == (ColorV {
                r: Ratio { n: v as int, d: 255 },
                g: Ratio { n: v as int, d: 255 },
                b: Ratio { n: v as int, d: 255 },
                a: ratio_int(1),
            }),
            c.wf(),
    {
        let ch: Rat = Rat::new(v as i64, 255);
        Color { r: ch, g: ch, b: ch, a: Rat::one() }
    }

    pub fn red() -> (c: Color)
        ensures
            c@ == rgb_v(1, 0, 0),
            c.wf(),
    {
        Color::rgb(Rat::one(), Rat::zero(), Rat::zero())
    }

    pub fn green() -> (c: Color)
        ensures
            c@ == rgb_v(0, 1, 0),
            c.wf(),
    {
        Color::rgb(Rat::zero(), Rat::one(), Rat::zero())
    }

    pub fn blue() -> (c: Color)
        ensures
            c@ == rgb_v(0, 0, 1),
            c.wf(),
    {
        Color::rgb(Rat::zero(), Rat::zero(), Rat::one())
    }

    pub fn yellow() -> (c: Color)
        ensures
            c@ == rgb_v(1, 1, 0),
            c.wf(),
    {
        Color::rgb(Rat::one(), Rat::one(), Rat::zero())
    }

    pub fn fuchsia() -> (c: Color)
        ensures
            c@ == rgb_v(1, 0, 1),
            c.wf(),
    {
        Color::rgb(Rat::one(), Rat::zero(), Rat::one())
    }

    pub fn aqua() -> (c: Color)
        ensures
            c@ == rgb_v(0, 1, 1),
            c.wf(),
    {
        Color::rgb(Rat::zero(), Rat::one(), Rat::one())
    }

    pub fn black() -> (c: Color)
        ensures
            c@ == rgb_v(0, 0, 0),
            c.wf(),
    {
        Color::rgb(Rat::zero(), Rat::zero(), Rat::zero())
    }

    pub fn white() -> (c: Color)
        ensures
            c@ == rgb_v(1, 1, 1),
            c.wf(),
    {
        Color::rgb(Rat::one(), Rat::one(), Rat::one())
    }

    /// All channels zero, alpha included.
    pub fn transparent() -> (c: Color)
        ensures
            c@ == (ColorV {
                r: ratio_int(0),
                g: ratio_int(0),
                b: ratio_int(0),
                a: ratio_int(0),
            }),
            c.wf(),
    {
        Color::rgba(Rat::zero(), Rat::zero(), Rat::zero(), Rat::zero())
    }
}

/// The ghost color with the given integer channels and alpha one.
pub open spec fn rgb_v(r: int, g: int, b: int) -> ColorV {
    ColorV { r: ratio_int(r), g: ratio_int(g), b: ratio_int(b), a: ratio_int(1) }
}

/// Failure to parse a color string; carries the offending input.
#[derive(Debug)]
pub enum ColorParseError {
    InvalidColor(String),
}

impl ColorParseError {
    /// The input that could not be parsed.
    pub fn input(&self) -> (s: &String)
        ensures
            self matches ColorParseError::InvalidColor(t) && s@ == t@,
    {
        match self {
            ColorParseError::InvalidColor(t) => t,
        }
    }
}


/// ASCII whitespace, what trimming removes at a component's edges.
pub open spec fn is_space(b: u8) -> bool {
    b == 32 || 9 <= b <= 13
}

pub open spec fn is_digit(b: u8) -> bool {
    48 <= b <= 57
}

/// Index of the first byte that is not whitespace, or the length.
pub open spec fn first_non_space(s: Seq<u8>) -> int
    decreases s.len(),
{
    if s.len() == 0 {
        0
    } else if is_space(s[0]) {
        1 + first_non_space(s.subrange(1, s.len() as int))
    } else {
        0
    }
}

/// The length once trailing whitespace is removed.
pub open spec fn len_sans_trailing_space(s: Seq<u8>) -> int
    decreases s.len(),
{
    if s.len() == 0 {
        0
    } else if is_space(s[s.len() - 1]) {
        len_sans_trailing_space(s.drop_last())
    } else {
        s.len() as int
    }
}

/// `s` with leading and trailing whitespace removed.
pub open spec fn spec_trim(s: Seq<u8>) -> Seq<u8> {
    if first_non_space(s) <= len_sans_trailing_space(s) {
        s.subrange(first_non_space(s), len_sans_trailing_space(s))
    } else {
        Seq::empty()
    }
}

/// Index of the first occurrence of `b` in `s`, or the length.
pub open spec fn find_byte(s: Seq<u8>, b: u8) -> int
    decreases s.len(),
{
    if s.len() == 0 {
        0
    } else if s[0] == b {
        0
    } else {
        1 + find_byte(s.subrange(1, s.len() as int), b)
    }
}

pub open spec fn all_digits(s: Seq<u8>) -> bool {
    forall|i: int| 0 <= i < s.len() ==> is_digit(s[i])
}

/// The integer a digit string denotes, most significant digit first.
pub open spec fn digits_val(s: Seq<u8>) -> int
    decreases s.len(),
{
    if s.len() == 0 {
        0
    } else {
        digits_val(s.drop_last()) * 10 + (s[s.len() - 1] - 48)
    }
}

pub open spec fn pow10(k: nat) -> int
    decreases k,
{
    if k == 0 {
        1
    } else {
        pow10((k - 1) as nat) * 10
    }
}

/// The most digits a numeric literal may hold, so that its scaled value
/// stays representable.
pub const MAX_NUMBER_DIGITS: usize = 18;

/// How many digits a numeric body holds (every byte except the dot).
pub open spec fn body_digit_count(s: Seq<u8>) -> int {
    if find_byte(s, 46) == s.len() {
        s.len() as int
    } else {
        s.len() - 1
    }
}

/// A numeric body, after any sign: digits with at most one dot, at least
/// one digit, and within the digit budget.
pub open spec fn body_valid(s: Seq<u8>) -> bool {
    let dot = find_byte(s, 46);
    &&& all_digits(s.subrange(0, dot))
    &&& (dot == s.len() || all_digits(s.subrange(dot + 1, s.len() as int)))
    &&& 1 <= body_digit_count(s) <= MAX_NUMBER_DIGITS
}

/// The rational a valid numeric body denotes.
pub open spec fn body_val(s: Seq<u8>) -> Ratio {
    let dot = find_byte(s, 46);
    if dot == s.len() {
        Ratio { n: digits_val(s), d: 1 }
    } else {
        let fl = s.len() - dot - 1;
        Ratio {
            n: digits_val(s.subrange(0, dot)) * pow10(fl as nat) + digits_val(
                s.subrange(dot + 1, s.len() as int),
            ),
            d: pow10(fl as nat),
        }
    }
}

/// A trimmed numeric literal: an optional sign, then a valid body.
pub open spec fn number_valid(s: Seq<u8>) -> bool {
    if s.len() == 0 {
        false
    } else if s[0] == 45 || s[0] == 43 {
        body_valid(s.subrange(1, s.len() as int))
    } else {
        body_valid(s)
    }
}

/// The rational a trimmed numeric literal denotes.
pub open spec fn number_val(s: Seq<u8>) -> Ratio {
    if s.len() > 0 && s[0] == 45 {
        ratio_neg(body_val(s.subrange(1, s.len() as int)))
    } else if s.len() > 0 && s[0] == 43 {
        body_val(s.subrange(1, s.len() as int))
    } else {
        body_val(s)
    }
}

/// A color component: a numeric literal once trimmed.
pub open spec fn component_valid(s: Seq<u8>) -> bool {
    number_valid(spec_trim(s))
}

pub open spec fn component_val(s: Seq<u8>) -> Ratio {
    number_val(spec_trim(s))
}

/// The comma-separated pieces of `s`. Splitting the empty string gives
/// one empty piece, and a trailing comma gives a trailing empty piece.
pub open spec fn split_commas(s: Seq<u8>) -> Seq<Seq<u8>>
    decreases s.len(),
{
    let i = find_byte(s, 44);
    if 0 <= i < s.len() {
        seq![s.subrange(0, i)] + split_commas(s.subrange(i + 1, s.len() as int))
    } else {
        seq![s]
    }
}

/// A parsable color string: one, three or four components, each a valid
/// numeric literal.
pub open spec fn color_str_valid(s: Seq<u8>) -> bool {
    let parts = split_commas(s);
    &&& (parts.len() == 1 || parts.len() == 3 || parts.len() == 4)
    &&& (forall|i: int| 0 <= i < parts.len() ==> component_valid(#[trigger] parts[i]))
}

/// The color a valid color string denotes: one component is a grey with
/// alpha one, three are rgb with alpha one, four are rgba.
pub open spec fn spec_parse_color(s: Seq<u8>) -> ColorV {
    let parts = split_commas(s);
    if parts.len() == 1 {
        let v = component_val(parts[0]);
        ColorV { r: v, g: v, b: v, a: ratio_int(1) }
    } else if parts.len() == 3 {
        ColorV {
            r: component_val(parts[0]),
            g: component_val(parts[1]),
            b: component_val(parts[2]),
            a: ratio_int(1),
        }
    } else {
        ColorV {
            r: component_val(parts[0]),
            g: component_val(parts[1]),
            b: component_val(parts[2]),
            a: component_val(parts[3]),
        }
    }
}

proof fn lemma_first_non_space_at(s: Seq<u8>, i: int)
    requires
        0 <= i <= s.len(),
        forall|j: int| 0 <= j < i ==> is_space(s[j]),
        i == s.len() || !is_space(s[i]),
    ensures
        first_non_space(s) == i,
    decreases s.len(),
{
    if s.len() != 0 && is_space(s[0]) {
        let t = s.subrange(1, s.len() as int);
        assert(forall|j: int| 0 <= j < i - 1 ==> is_space(#[trigger] t[j]));
        lemma_first_non_space_at(t, i - 1);
    }
}

proof fn lemma_len_sans_trailing_space_at(s: Seq<u8>, i: int)
    requires
        0 <= i <= s.len(),
        forall|j: int| i <= j < s.len() ==> is_space(s[j]),
        i == 0 || !is_space(s[i - 1]),
    ensures
        len_sans_trailing_space(s) == i,
    decreases s.len(),
{
    if s.len() != 0 && is_space(s[s.len() - 1]) {
        let t = s.drop_last();
        assert(forall|j: int| i <= j < t.len() ==> is_space(#[trigger] t[j]));
        lemma_len_sans_trailing_space_at(t, i);
    }
}

proof fn lemma_find_byte_at(s: Seq<u8>, b: u8, i: int)
    requires
        0 <= i <= s.len(),
        forall|j: int| 0 <= j < i ==> s[j] != b,
        i == s.len() || s[i] == b,
    ensures
        find_byte(s, b) == i,
    decreases s.len(),
{
    if s.len() != 0 && s[0] != b {
        let t = s.subrange(1, s.len() as int);
        assert(forall|j: int| 0 <= j < i - 1 ==> #[trigger] t[j] != b);
        lemma_find_byte_at(t, b, i - 1);
    }
}

proof fn lemma_digits_val_bound(s: Seq<u8>)
    requires
        all_digits(s),
    ensures
        0 <= digits_val(s) < pow10(s.len()),
    decreases s.len(),
{
    if s.len() != 0 {
        let t = s.drop_last();
        assert(all_digits(t));
        lemma_digits_val_bound(t);
    }
}

proof fn lemma_pow10_pos(k: nat)
    ensures
        pow10(k) >= 1,
    decreases k,
{
    if k != 0 {
        lemma_pow10_pos((k - 1) as nat);
    }
}

proof fn lemma_pow10_mono(a: nat, b: nat)
    requires
        a <= b,
    ensures
        pow10(a) <= pow10(b),
    decreases b,
{
    if a < b {
        lemma_pow10_mono(a, (b - 1) as nat);
        lemma_pow10_pos((b - 1) as nat);
    }
}

proof fn lemma_pow10_value()
    ensures
        pow10(18) == 1_000_000_000_000_000_000,
{
    reveal_with_fuel(pow10, 20);
}

proof fn lemma_pow10_mul(a: nat, b: nat)
    ensures
        pow10(a) * pow10(b) == pow10((a + b) as nat),
    decreases b,
{
    if b == 0 {
        assert(pow10(a) * 1 == pow10(a)) by (nonlinear_arith);
    } else {
        lemma_pow10_mul(a, (b - 1) as nat);
        assert(pow10(a) * (pow10((b - 1) as nat) * 10) == (pow10(a) * pow10((b - 1) as nat))
            * 10) by (nonlinear_arith);
        assert((a + b - 1) as nat + 1 == (a + b) as nat);
    }
}

fn byte_is_space(b: u8) -> (r: bool)
    ensures
        r == is_space(b),
{
    b == 32 || (9 <= b && b <= 13)
}

/// Reads a run of digits as an integer. Fails on a non-digit byte.
fn parse_digit_run(bytes: &Vec<u8>, from: usize, to: usize) -> (r: Option<i64>)
    requires
        from <= to <= bytes@.len(),
        to - from <= MAX_NUMBER_DIGITS,
    ensures
        match r {
            Some(v) => {
                &&& all_digits(bytes@.subrange(from as int, to as int))
                &&& v == digits_val(bytes@.subrange(from as int, to as int))
                &&& 0 <= v < pow10((to - from) as nat)
            },
            None => !all_digits(bytes@.subrange(from as int, to as int)),
        },
{
    let mut acc: i64 = 0;
    let mut j: usize = from;
    proof {
        assert(bytes@.subrange(from as int, from as int) =~= Seq::<u8>::empty());
    }
    while j < to
        invariant
            from <= j <= to <= bytes@.len(),
            to - from <= MAX_NUMBER_DIGITS,
            all_digits(bytes@.subrange(from as int, j as int)),
            acc == digits_val(bytes@.subrange(from as int, j as int)),
            0 <= acc < pow10((j - from) as nat),
        decreases to - j,
    {
        let c: u8 = bytes[j];
        if c < 48 || c > 57 {
            proof {
                assert(bytes@.subrange(from as int, to as int)[j - from] == bytes@[j as int]);
            }
            return None;
        }
        proof {
            let pre = bytes@.subrange(from as int, j as int);
            let post = bytes@.subrange(from as int, j as int + 1);
            assert(post.drop_last() =~= pre);
            assert(post[post.len() - 1] == bytes@[j as int]);
            lemma_pow10_mono((j + 1 - from) as nat, 18);
            lemma_pow10_value();
        }
        acc = acc * 10 + ((c - 48) as i64);
        j += 1;
    }
    Some(acc)
}

/// `10^k` as an `i64`.
fn pow10_exec(k: usize) -> (r: i64)
    requires
        k <= MAX_NUMBER_DIGITS,
    ensures
        r == pow10(k as nat),
        r >= 1,
{
    let mut den: i64 = 1;
    let mut j: usize = 0;
    while j < k
        invariant
            0 <= j <= k <= MAX_NUMBER_DIGITS,
            den == pow10(j as nat),
            den >= 1,
        decreases k - j,
    {
        proof {
            lemma_pow10_mono((j + 1) as nat, 18);
            lemma_pow10_pos(j as nat);
            lemma_pow10_value();
        }
        den = den * 10;
        j += 1;
    }
    den
}

/// Parses one color component: the byte range `[from, to)`, trimmed, read
/// as a signed decimal literal.
#[verifier::rlimit(50)]
fn parse_component(bytes: &Vec<u8>, from: usize, to: usize) -> (r: Option<Rat>)
    requires
        from <= to <= bytes@.len(),
    ensures
        match r {
            Some(q) => {
                &&& component_valid(bytes@.subrange(from as int, to as int))
                &&& q.wf()
                &&& q@ == component_val(bytes@.subrange(from as int, to as int))
            },
            None => !component_valid(bytes@.subrange(from as int, to as int)),
        },
{
    let ghost sub = bytes@.subrange(from as int, to as int);

    let mut a: usize = from;
    while a < to && byte_is_space(bytes[a])
        invariant
            from <= a <= to <= bytes@.len(),
            forall|j: int| from <= j < a ==> is_space(bytes@[j]),
        decreases to - a,
    {
        a += 1;
    }
    let mut b: usize = to;
    while b > a && byte_is_space(bytes[b - 1])
        invariant
            from <= a <= b <= to <= bytes@.len(),
            forall|j: int| b <= j < to ==> is_space(bytes@[j]),
        decreases b,
    {
        b -= 1;
    }

    if a == b {
        proof {
            assert(forall|j: int| 0 <= j < sub.len() ==> is_space(#[trigger] sub[j]));
            lemma_first_non_space_at(sub, sub.len() as int);
            lemma_len_sans_trailing_space_at(sub, 0);
            if sub.len() == 0 {
                assert(spec_trim(sub) =~= Seq::<u8>::empty());
            }
        }
        return None;
    }
    let ghost t = bytes@.subrange(a as int, b as int);
    proof {
        assert(forall|j: int| 0 <= j < a - from ==> is_space(#[trigger] sub[j]));
        assert(!is_space(sub[a - from]));
        lemma_first_non_space_at(sub, a - from);
        assert(forall|j: int| b - from <= j < sub.len() ==> is_space(#[trigger] sub[j]));
        assert(!is_space(sub[b - from - 1]));
        lemma_len_sans_trailing_space_at(sub, b - from);
        assert(spec_trim(sub) =~= t);
    }

    let neg: bool = bytes[a] == 45;
    let has_sign: bool = neg || bytes[a] == 43;
    let a2: usize = if has_sign {
        a + 1
    } else {
        a
    };
    let ghost body = bytes@.subrange(a2 as int, b as int);
    proof {
        if has_sign {
            assert(body =~= t.subrange(1, t.len() as int));
        } else {
            assert(body =~= t);
        }
    }

    let mut d: usize = a2;
    while d < b && bytes[d] != 46
        invariant
            a2 <= d <= b <= bytes@.len(),
            forall|j: int| a2 <= j < d ==> bytes@[j] != 46,
        decreases b - d,
    {
        d += 1;
    }
    proof {
        assert(forall|j: int| 0 <= j < d - a2 ==> #[trigger] body[j] != 46);
        lemma_find_byte_at(body, 46, d - a2);
    }

    let int_len: usize = d - a2;
    let frac_len: usize = if d < b {
        b - d - 1
    } else {
        0
    };
    if int_len + frac_len < 1 || int_len + frac_len > MAX_NUMBER_DIGITS {
        return None;
    }

    let int_part: Option<i64> = parse_digit_run(bytes, a2, d);
    let int_val: i64 = match int_part {
        Some(v) => v,
        None => {
            proof {
                assert(body.subrange(0, d - a2) =~= bytes@.subrange(a2 as int, d as int));
            }
            return None;
        },
    };
    proof {
        assert(body.subrange(0, d - a2) =~= bytes@.subrange(a2 as int, d as int));
    }

    if d == b {
        // no fractional part
        let num: i64 = if neg {
            -int_val
        } else {
            int_val
        };
        return Some(Rat::new(num, 1));
    }

    let frac_part: Option<i64> = parse_digit_run(bytes, d + 1, b);
    let frac_val: i64 = match frac_part {
        Some(v) => v,
        None => {
            proof {
                assert(body.subrange(d - a2 + 1, body.len() as int) =~= bytes@.subrange(
                    d as int + 1,
                    b as int,
                ));
            }
            return None;
        },
    };
    proof {
        assert(body.subrange(d - a2 + 1, body.len() as int) =~= bytes@.subrange(
            d as int + 1,
            b as int,
        ));
    }

    let den: i64 = pow10_exec(frac_len);
    proof {
        lemma_pow10_mul(int_len as nat, frac_len as nat);
        lemma_pow10_mono((int_len + frac_len) as nat, 18);
        lemma_pow10_value();
        lemma_pow10_pos(frac_len as nat);
        assert(0 <= int_val * den && int_val * den + frac_val < pow10(
            (int_len + frac_len) as nat,
        )) by (nonlinear_arith)
            requires
                0 <= int_val < pow10(int_len as nat),
                den == pow10(frac_len as nat),
                den >= 1,
                0 <= frac_val < pow10(frac_len as nat),
                pow10(int_len as nat) * pow10(frac_len as nat) == pow10(
                    (int_len + frac_len) as nat,
                ),
        ;
    }
    let num_abs: i64 = int_val * den + frac_val;
    let num: i64 = if neg {
        -num_abs
    } else {
        num_abs
    };
    Some(Rat::new(num, den))
}

impl Color {
    /// Parses all comma-separated components of `bytes`.
    fn parse_components(bytes: &Vec<u8>) -> (r: Option<Vec<Rat>>)
        ensures
            match r {
                Some(v) => {
                    &&& v@.len() == split_commas(bytes@).len()
                    &&& (forall|j: int|
                        #![trigger v@[j]]
                        #![trigger split_commas(bytes@)[j]]
                        0 <= j < v@.len() ==> component_valid(split_commas(bytes@)[j])
                            && v@[j].wf() && v@[j]@ == component_val(split_commas(bytes@)[j]))
                },
                None => !(forall|j: int|
                    0 <= j < split_commas(bytes@).len() ==> component_valid(
                        #[trigger] split_commas(bytes@)[j],
                    )),
            },
    {
        let ghost full = split_commas(bytes@);
        let mut parts: Vec<Rat> = Vec::new();
        let ghost mut done: Seq<Seq<u8>> = Seq::empty();
        let mut start: usize = 0;
        let mut i: usize = 0;
        let len: usize = bytes.len();
        proof {
            assert(bytes@.subrange(0, bytes@.len() as int) =~= bytes@);
            assert(Seq::<Seq<u8>>::empty() + split_commas(bytes@) =~= split_commas(bytes@));
        }
        while i < len
            invariant
                0 <= start <= i <= len == bytes@.len(),
                full == split_commas(bytes@),
                full == done + split_commas(bytes@.subrange(start as int, len as int)),
                done.len() == parts@.len(),
                forall|j: int|
                    0 <= j < done.len() ==> done[j] == #[trigger] full[j] && component_valid(
                        full[j],
                    ) && parts@[j].wf() && parts@[j]@ == component_val(full[j]),
                forall|j: int| start <= j < i ==> bytes@[j] != 44,
            decreases len - i,
        {
            if bytes[i] == 44 {
                let ghost rest = bytes@.subrange(start as int, len as int);
                proof {
                    assert(forall|j: int| 0 <= j < i - start ==> #[trigger] rest[j] != 44);
                    lemma_find_byte_at(rest, 44, i - start);
                    assert(rest.subrange(0, i - start) =~= bytes@.subrange(
                        start as int,
                        i as int,
                    ));
                    assert(rest.subrange(i - start + 1, rest.len() as int) =~= bytes@.subrange(
                        i as int + 1,
                        len as int,
                    ));
                }
                let seg: Option<Rat> = parse_component(bytes, start, i);
                proof {
                    let seg_view = bytes@.subrange(start as int, i as int);
                    assert(split_commas(rest) == seq![seg_view] + split_commas(
                        bytes@.subrange(i as int + 1, len as int),
                    ));
                    assert(full == (done + seq![seg_view]) + split_commas(
                        bytes@.subrange(i as int + 1, len as int),
                    )) by {
                        assert(done + (seq![seg_view] + split_commas(
                            bytes@.subrange(i as int + 1, len as int),
                        )) =~= (done + seq![seg_view]) + split_commas(
                            bytes@.subrange(i as int + 1, len as int),
                        ));
                    }
                    assert(full[done.len() as int] == seg_view);
                }
                match seg {
                    Some(q) => {
                        let ghost old_parts = parts@;
                        parts.push(q);
                        proof {
                            let sv = bytes@.subrange(start as int, i as int);
                            let old_done = done;
                            done = done + seq![sv];
                            assert(parts@ == old_parts.push(q));
                            assert forall|j: int| 0 <= j < done.len() implies done[j]
                                == #[trigger] full[j] && component_valid(full[j])
                                && parts@[j].wf() && parts@[j]@ == component_val(full[j]) by {
                                if j < old_done.len() {
                                    assert(done[j] == old_done[j]);
                                    assert(parts@[j] == old_parts[j]);
                                } else {
                                    assert(done[j] == sv);
                                    assert(full[j] == sv);
                                    assert(parts@[j] == q);
                                }
                            }
                        }
                    },
                    None => {
                        proof {
                            assert(0 <= done.len() < full.len());
                            assert(!component_valid(full[done.len() as int]));
                        }
                        return None;
                    },
                }
                start = i + 1;
            }
            i += 1;
        }
        // last segment: no comma from start to the end
        let ghost rest = bytes@.subrange(start as int, len as int);
        proof {
            assert(forall|j: int| 0 <= j < rest.len() ==> #[trigger] rest[j] != 44);
            lemma_find_byte_at(rest, 44, rest.len() as int);
            assert(split_commas(rest) == seq![rest]);
            assert(full == done + seq![rest]);
            assert(full[done.len() as int] == rest);
        }
        let seg: Option<Rat> = parse_component(bytes, start, len);
        match seg {
            Some(q) => {
                parts.push(q);
                proof {
                    done = done + seq![rest];
                    assert(done =~= full);
                }
                Some(parts)
            },
            None => {
                proof {
                    assert(0 <= done.len() < full.len());
                    assert(!component_valid(full[done.len() as int]));
                }
                None
            },
        }
    }

    /// Parses a color from a comma-separated numeric string: one number is
    /// a grey with alpha one, three are rgb with alpha one, four are rgba;
    /// anything else is an error carrying the input. Each component is an
    /// exact decimal literal (see the module doc); exponent forms and
    /// non-finite words are not part of the grammar.
    pub fn from_str(s: &str) -> (res: Result<Color, ColorParseError>)
        ensures
            color_str_valid(s.spec_bytes()) ==> (res matches Ok(c) && c.wf() && c@
                == spec_parse_color(s.spec_bytes())),
            !color_str_valid(s.spec_bytes()) ==> (res matches Err(e) && (e matches
                ColorParseError::InvalidColor(t) && t@ == s@)),
    {
        let bytes: Vec<u8> = s.as_bytes_vec();
        proof {
            assert(bytes@ == s.spec_bytes());
        }
        match Color::parse_components(&bytes) {
            Some(parts) => {
                proof {
                    assert(split_commas(bytes@) == split_commas(s.spec_bytes()));
                }
                if parts.len() == 1 {
                    proof {
                        assert(color_str_valid(s.spec_bytes()));
                        assert(parts@[0]@ == component_val(split_commas(s.spec_bytes())[0]));
                        assert(parts@[0].wf());
                    }
                    let c: Color = Color::grey(parts[0]);
                    proof {
                        assert(c.wf());
                        assert(c@ == spec_parse_color(s.spec_bytes()));
                    }
                    Ok(c)
                } else if parts.len() == 3 {
                    proof {
                        assert(color_str_valid(s.spec_bytes()));
                        assert(parts@[0]@ == component_val(split_commas(bytes@)[0])
                            && parts@[0].wf());
                        assert(parts@[1]@ == component_val(split_commas(bytes@)[1])
                            && parts@[1].wf());
                        assert(parts@[2]@ == component_val(split_commas(bytes@)[2])
                            && parts@[2].wf());
                    }
                    let c: Color = Color::rgb(parts[0], parts[1], parts[2]);
                    proof {
                        assert(c.wf());
                        assert(c@ == spec_parse_color(s.spec_bytes()));
                    }
                    Ok(c)
                } else if parts.len() == 4 {
                    proof {
                        assert(color_str_valid(s.spec_bytes()));
                        assert(parts@[0]@ == component_val(split_commas(bytes@)[0])
                            && parts@[0].wf());
                        assert(parts@[1]@ == component_val(split_commas(bytes@)[1])
                            && parts@[1].wf());
                        assert(parts@[2]@ == component_val(split_commas(bytes@)[2])
                            && parts@[2].wf());
                        assert(parts@[3]@ == component_val(split_commas(bytes@)[3])
                            && parts@[3].wf());
                    }
                    let c: Color = Color::rgba(parts[0], parts[1], parts[2], parts[3]);
                    proof {
                        assert(c.wf());
                        assert(c@ == spec_parse_color(s.spec_bytes()));
                    }
                    Ok(c)
                } else {
                    proof {
                        assert(!color_str_valid(s.spec_bytes()));
                    }
                    Err(ColorParseError::InvalidColor(s.to_owned()))
                }
            },
            None => {
                proof {
                    assert(!color_str_valid(s.spec_bytes()));
                }
                Err(ColorParseError::InvalidColor(s.to_owned()))
            },
        }
    }
}

} // verus!
