//! The JSON-like values that variable contexts bind names to, together with
//! their mathematical models.
//!
//! Numbers are exact decimals: a sign, a mantissa and a decimal scale, so
//! that `mant / 10^scale` is the numeric value. Keeping them as integers
//! makes every formatting rule provable arithmetic.

use vstd::prelude::*;

verus! {

/// Largest decimal scale a stored number may carry.
pub const MAX_SCALE: u32 = 18;

/// An exact decimal number: `(-1)^neg * mant / 10^scale`.
#[derive(Clone, Copy, Debug)]
pub struct Dec {
    pub neg: bool,
    pub mant: u64,
    pub scale: u32,
}

/// 10^k.
pub open spec fn spec_pow10(k: nat) -> nat
    decreases k,
{
    if k == 0 {
        1
    } else {
        10 * spec_pow10((k - 1) as nat)
    }
}

pub proof fn lemma_pow10_pos(k: nat)
    ensures
        spec_pow10(k) >= 1,
    decreases k,
{
    if k > 0 {
        lemma_pow10_pos((k - 1) as nat);
    }
}

pub proof fn lemma_pow10_bound(k: nat)
    requires
        k <= 19,
    ensures
        spec_pow10(k) <= 10_000_000_000_000_000_000,
    decreases k,
{
    if k > 0 {
        lemma_pow10_bound((k - 1) as nat);
        assert(spec_pow10(k) == 10 * spec_pow10((k - 1) as nat));
        assert(spec_pow10((k - 1) as nat) <= 1_000_000_000_000_000_000) by {
            lemma_pow10_mono((k - 1) as nat, 18);
            lemma_pow10_18();
        }
    }
}

pub proof fn lemma_pow10_18()
    ensures
        spec_pow10(18) == 1_000_000_000_000_000_000,
{
    reveal_with_fuel(spec_pow10, 20);
    assert(spec_pow10(18) == 1_000_000_000_000_000_000);
}

pub proof fn lemma_pow10_mono(a: nat, b: nat)
    requires
        a <= b,
    ensures
        spec_pow10(a) <= spec_pow10(b),
    decreases b,
{
    if a < b {
        lemma_pow10_mono(a, (b - 1) as nat);
        lemma_pow10_pos((b - 1) as nat);
    }
}

/// 10^k as a machine integer.
pub fn pow10_u64(k: u32) -> (r: u64)
    requires
        k <= 19,
    ensures
        r as nat == spec_pow10(k as nat),
        r >= 1,
    decreases k,
{
    proof {
        lemma_pow10_bound(k as nat);
        lemma_pow10_pos(k as nat);
    }
    if k == 0 {
        1
    } else {
        let p = pow10_u64(k - 1);
        proof {
            lemma_pow10_bound((k - 1) as nat);
        }
        10 * p
    }
}

/// A normalized decimal never ends in a redundant trailing zero, and zero
/// itself is stored positively with scale zero.
pub open spec fn dec_wf(d: Dec) -> bool {
    &&& d.scale <= MAX_SCALE
    &&& (d.scale > 0 ==> d.mant % 10 != 0)
    &&& (d.mant == 0 ==> !d.neg && d.scale == 0)
}

/// Strip factors of ten shared by the mantissa and the scale.
pub open spec fn spec_norm_dec(neg: bool, mant: u64, scale: u32) -> Dec
    decreases scale,
{
    if scale > 0 && mant % 10 == 0 {
        spec_norm_dec(neg, mant / 10, (scale - 1) as u32)
    } else if mant == 0 {
        Dec { neg: false, mant: 0, scale: 0 }
    } else {
        Dec { neg, mant, scale }
    }
}

pub proof fn lemma_norm_dec_wf(neg: bool, mant: u64, scale: u32)
    requires
        scale <= MAX_SCALE,
    ensures
        dec_wf(spec_norm_dec(neg, mant, scale)),
    decreases scale,
{
    if scale > 0 && mant % 10 == 0 {
        lemma_norm_dec_wf(neg, mant / 10, (scale - 1) as u32);
    }
}

/// Drop fractional digits until the scale is within range.
pub open spec fn spec_cap_scale(mant: u64, scale: u32) -> (u64, u32)
    decreases scale,
{
    if scale > MAX_SCALE {
        spec_cap_scale(mant / 10, (scale - 1) as u32)
    } else {
        (mant, scale)
    }
}

impl Dec {
    /// Build a normalized decimal from raw parts; fractional digits beyond
    /// the supported scale are discarded.
    pub fn new(neg: bool, mant: u64, scale: u32) -> (r: Dec)
        ensures
            r == spec_norm_dec(neg, spec_cap_scale(mant, scale).0, spec_cap_scale(mant, scale).1),
            dec_wf(r),
    {
        let mut m = mant;
        let mut s = scale;
        while s > MAX_SCALE
            invariant
                spec_cap_scale(m, s) == spec_cap_scale(mant, scale),
            decreases s,
        {
            m = m / 10;
            s = s - 1;
        }
        let ghost capped = spec_cap_scale(mant, scale);
        assert(m == capped.0 && s == capped.1);
        while s > 0 && m % 10 == 0
            invariant
                s <= MAX_SCALE,
                spec_norm_dec(neg, m, s) == spec_norm_dec(neg, capped.0, capped.1),
            decreases s,
        {
            m = m / 10;
            s = s - 1;
        }
        let r = if m == 0 {
            Dec { neg: false, mant: 0, scale: 0 }
        } else {
            Dec { neg, mant: m, scale: s }
        };
        proof {
            lemma_norm_dec_wf(neg, capped.0, capped.1);
        }
        r
    }

    /// The decimal for a whole number given as sign and magnitude.
    pub fn from_int(neg: bool, magnitude: u64) -> (r: Dec)
        ensures
            r == spec_norm_dec(neg, magnitude, 0),
            dec_wf(r),
    {
        Dec::new(neg, magnitude, 0)
    }
}

/// The mathematical model of a [`JsonValue`].
#[verifier::ext_equal]
pub enum ValueV {
    Null,
    Bool(bool),
    Num(Dec),
    Str(Seq<char>),
    Arr(Seq<ValueV>),
    Obj(Seq<(Seq<char>, ValueV)>),
}

/// A JSON-like value: the data a template is rendered against.
#[derive(Debug)]
pub enum JsonValue {
    Null,
    Bool(bool),
    Num(Dec),
    Str(Vec<char>),
    Arr(Vec<JsonValue>),
    Obj(Vec<(Vec<char>, JsonValue)>),
}

/// Model of a sequence of values.
pub open spec fn values_view(s: Seq<JsonValue>) -> Seq<ValueV>
    decreases s,
{
    if s.len() == 0 {
        Seq::empty()
    } else {
        seq![value_view(s[0])] + values_view(s.drop_first())
    }
}

/// Model of the entries of an object.
pub open spec fn entries_view(s: Seq<(Vec<char>, JsonValue)>) -> Seq<(Seq<char>, ValueV)>
    decreases s,
{
    if s.len() == 0 {
        Seq::empty()
    } else {
        seq![(s[0].0@, value_view(s[0].1))] + entries_view(s.drop_first())
    }
}

/// Model of a single value.
pub open spec fn value_view(v: JsonValue) -> ValueV
    decreases v,
{
    match v {
        JsonValue::Null => ValueV::Null,
        JsonValue::Bool(b) => ValueV::Bool(b),
        JsonValue::Num(d) => ValueV::Num(d),
        JsonValue::Str(s) => ValueV::Str(s@),
        JsonValue::Arr(a) => ValueV::Arr(values_view(a@)),
        JsonValue::Obj(o) => ValueV::Obj(entries_view(o@)),
    }
}

impl View for JsonValue {
    type V = ValueV;

    open spec fn view(&self) -> ValueV {
        value_view(*self)
    }
}

pub proof fn lemma_values_view_len(s: Seq<JsonValue>)
    ensures
        values_view(s).len() == s.len(),
    decreases s,
{
    if s.len() > 0 {
        lemma_values_view_len(s.drop_first());
    }
}

pub proof fn lemma_values_view_index(s: Seq<JsonValue>, i: int)
    requires
        0 <= i < s.len(),
    ensures
        values_view(s).len() == s.len(),
        values_view(s)[i] == value_view(s[i]),
    decreases s,
{
    lemma_values_view_len(s);
    if i > 0 {
        lemma_values_view_index(s.drop_first(), i - 1);
    }
}

pub proof fn lemma_entries_view_len(s: Seq<(Vec<char>, JsonValue)>)
    ensures
        entries_view(s).len() == s.len(),
    decreases s,
{
    if s.len() > 0 {
        lemma_entries_view_len(s.drop_first());
    }
}

pub proof fn lemma_entries_view_index(s: Seq<(Vec<char>, JsonValue)>, i: int)
    requires
        0 <= i < s.len(),
    ensures
        entries_view(s).len() == s.len(),
        entries_view(s)[i] == (s[i].0@, value_view(s[i].1)),
    decreases s,
{
    lemma_entries_view_len(s);
    if i > 0 {
        lemma_entries_view_index(s.drop_first(), i - 1);
    }
}

/// Append every character of `src` to `dst`.
pub fn push_chars(dst: &mut Vec<char>, src: &Vec<char>)
    ensures
        final(dst)@ == old(dst)@ + src@,
{
    let mut i: usize = 0;
    while i < src.len()
        invariant
            i <= src@.len(),
            dst@ == old(dst)@ + src@.subrange(0, i as int),
        decreases src@.len() - i,
    {
        dst.push(src[i]);
        i = i + 1;
        proof {
            assert(dst@ =~= old(dst)@ + src@.subrange(0, i as int));
        }
    }
    proof {
        assert(dst@ =~= old(dst)@ + src@);
    }
}

/// The decimal digit characters of `d`, which must be below ten.
pub open spec fn spec_digit(d: nat) -> char {
    if d == 0 { '0' }
    else if d == 1 { '1' }
    else if d == 2 { '2' }
    else if d == 3 { '3' }
    else if d == 4 { '4' }
    else if d == 5 { '5' }
    else if d == 6 { '6' }
    else if d == 7 { '7' }
    else if d == 8 { '8' }
    else { '9' }
}

/// The base-ten digit string of `n`, most significant digit first.
pub open spec fn spec_nat_digits(n: nat) -> Seq<char>
    decreases n,
{
    if n < 10 {
        seq![spec_digit(n)]
    } else {
        spec_nat_digits(n / 10).push(spec_digit(n % 10))
    }
}

fn digit_char(d: u64) -> (c: char)
    requires
        d < 10,
    ensures
        c == spec_digit(d as nat),
{
    if d == 0 { '0' }
    else if d == 1 { '1' }
    else if d == 2 { '2' }
    else if d == 3 { '3' }
    else if d == 4 { '4' }
    else if d == 5 { '5' }
    else if d == 6 { '6' }
    else if d == 7 { '7' }
    else if d == 8 { '8' }
    else { '9' }
}

/// Write `n` in decimal.
pub fn u64_digits(n: u64) -> (r: Vec<char>)
    ensures
        r@ == spec_nat_digits(n as nat),
    decreases n,
{
    if n < 10 {
        let mut r: Vec<char> = Vec::new();
        r.push(digit_char(n));
        r
    } else {
        let mut r = u64_digits(n / 10);
        r.push(digit_char(n % 10));
        r
    }
}

/// `s` left-padded with zeros to at least `width` characters.
pub open spec fn spec_pad_zeros(s: Seq<char>, width: int) -> Seq<char>
    decreases width - s.len(),
{
    if s.len() >= width {
        s
    } else {
        spec_pad_zeros(seq!['0'] + s, width)
    }
}

/// Left-pad `s` with zeros to at least `width` characters.
pub fn pad_zeros(s: Vec<char>, width: usize) -> (r: Vec<char>)
    ensures
        r@ == spec_pad_zeros(s@, width as int),
    decreases width - s@.len(),
{
    if s.len() >= width {
        s
    } else {
        let mut t: Vec<char> = Vec::new();
        t.push('0');
        push_chars(&mut t, &s);
        proof {
            assert(t@ =~= seq!['0'] + s@);
        }
        pad_zeros(t, width)
    }
}

/// The canonical text of a decimal: optional minus sign, integer part, and,
/// for a positive scale, a point followed by exactly `scale` fraction digits.
pub open spec fn spec_dec_chars(d: Dec) -> Seq<char> {
    let sign: Seq<char> = if d.neg { seq!['-'] } else { Seq::empty() };
    if d.scale == 0 {
        sign + spec_nat_digits(d.mant as nat)
    } else {
        let p = spec_pow10(d.scale as nat);
        sign + spec_nat_digits(d.mant as nat / p) + seq!['.'] + spec_pad_zeros(
            spec_nat_digits(d.mant as nat % p),
            d.scale as int,
        )
    }
}

pub proof fn lemma_pow10_gt_u64(k: nat)
    requires
        k >= 20,
    ensures
        spec_pow10(k) > 0xffff_ffff_ffff_ffff,
{
    lemma_pow10_mono(20, k);
    reveal_with_fuel(spec_pow10, 21);
    assert(spec_pow10(20) == 100_000_000_000_000_000_000);
}

/// Render a decimal as text.
pub fn dec_chars(d: &Dec) -> (r: Vec<char>)
    ensures
        r@ == spec_dec_chars(*d),
{
    let mut r: Vec<char> = Vec::new();
    if d.neg {
        r.push('-');
    }
    if d.scale == 0 {
        let digits = u64_digits(d.mant);
        push_chars(&mut r, &digits);
        proof {
            assert(r@ =~= spec_dec_chars(*d));
        }
        r
    } else if d.scale >= 20 {
        proof {
            lemma_pow10_gt_u64(d.scale as nat);
        }
        let ip = u64_digits(0);
        let fp = u64_digits(d.mant);
        push_chars(&mut r, &ip);
        r.push('.');
        let padded = pad_zeros(fp, d.scale as usize);
        push_chars(&mut r, &padded);
        proof {
            let p = spec_pow10(d.scale as nat);
            assert((d.mant as nat) < p);
            vstd::arithmetic::div_mod::lemma_basic_div(d.mant as int, p as int);
            vstd::arithmetic::div_mod::lemma_small_mod(d.mant as nat, p);
            assert(r@ =~= spec_dec_chars(*d));
        }
        r
    } else {
        let p = pow10_u64(d.scale);
        let ip = u64_digits(d.mant / p);
        let fp = u64_digits(d.mant % p);
        push_chars(&mut r, &ip);
        r.push('.');
        let padded = pad_zeros(fp, d.scale as usize);
        push_chars(&mut r, &padded);
        proof {
            assert(r@ =~= spec_dec_chars(*d));
        }
        r
    }
}

/// The truthiness rule for conditional blocks: booleans as themselves, null
/// false, strings and containers by non-emptiness, numbers by being nonzero.
pub open spec fn spec_truthy(v: ValueV) -> bool {
    match v {
        ValueV::Bool(b) => b,
        ValueV::Null => false,
        ValueV::Str(s) => s.len() > 0,
        ValueV::Num(d) => d.mant != 0,
        ValueV::Arr(a) => a.len() > 0,
        ValueV::Obj(o) => o.len() > 0,
    }
}

/// Evaluate truthiness of a value.
pub fn truthy(v: &JsonValue) -> (r: bool)
    ensures
        r == spec_truthy(v@),
{
    match v {
        JsonValue::Bool(b) => *b,
        JsonValue::Null => false,
        JsonValue::Str(s) => s.len() > 0,
        JsonValue::Num(d) => d.mant != 0,
        JsonValue::Arr(a) => {
            proof {
                lemma_values_view_len(a@);
            }
            a.len() > 0
        },
        JsonValue::Obj(o) => {
            proof {
                lemma_entries_view_len(o@);
            }
            o.len() > 0
        },
    }
}


/// Write `n` in decimal, for wide intermediate results.
pub fn u128_digits(n: u128) -> (r: Vec<char>)
    ensures
        r@ == spec_nat_digits(n as nat),
    decreases n,
{
    if n < 10 {
        let mut r: Vec<char> = Vec::new();
        r.push(digit_char((n % 10) as u64));
        r
    } else {
        let mut r = u128_digits(n / 10);
        r.push(digit_char((n % 10) as u64));
        r
    }
}

/// One step of a decimal scan: the digit value of `c`, if it is a digit.
pub open spec fn spec_digit_value(c: char) -> Option<u64> {
    if c == '0' { Option::Some(0u64) }
    else if c == '1' { Option::Some(1u64) }
    else if c == '2' { Option::Some(2u64) }
    else if c == '3' { Option::Some(3u64) }
    else if c == '4' { Option::Some(4u64) }
    else if c == '5' { Option::Some(5u64) }
    else if c == '6' { Option::Some(6u64) }
    else if c == '7' { Option::Some(7u64) }
    else if c == '8' { Option::Some(8u64) }
    else if c == '9' { Option::Some(9u64) }
    else { Option::None }
}

fn digit_value(c: char) -> (r: Option<u64>)
    ensures
        r == spec_digit_value(c),
{
    if c == '0' { Some(0u64) }
    else if c == '1' { Some(1u64) }
    else if c == '2' { Some(2u64) }
    else if c == '3' { Some(3u64) }
    else if c == '4' { Some(4u64) }
    else if c == '5' { Some(5u64) }
    else if c == '6' { Some(6u64) }
    else if c == '7' { Some(7u64) }
    else if c == '8' { Some(8u64) }
    else if c == '9' { Some(9u64) }
    else { None }
}

/// Scan decimal text from `i` on: digits, then at most one point followed
/// by digits. Carries the mantissa and scale gathered so far; refuses
/// anything else, an overflowing mantissa, or an absurd scale.
pub open spec fn spec_dec_scan(
    s: Seq<char>,
    i: int,
    mant: u64,
    scale: u32,
    seen_digit: bool,
    in_frac: bool,
) -> Option<(u64, u32, bool)>
    decreases s.len() - i,
{
    if i < 0 {
        Option::None
    } else if i >= s.len() {
        if seen_digit {
            Option::Some((mant, scale, in_frac))
        } else {
            Option::None
        }
    } else if s[i] == '.' {
        if in_frac || !seen_digit {
            Option::None
        } else {
            spec_dec_scan(s, i + 1, mant, scale, seen_digit, true)
        }
    } else {
        match spec_digit_value(s[i]) {
            Option::None => Option::None,
            Option::Some(d) => {
                if mant > 0xffff_ffff_ffff_ffffu64 / 10 || mant * 10 > 0xffff_ffff_ffff_ffffu64 - d {
                    Option::None
                } else if in_frac && scale >= 1000 {
                    Option::None
                } else {
                    spec_dec_scan(
                        s,
                        i + 1,
                        (mant * 10 + d) as u64,
                        if in_frac { (scale + 1) as u32 } else { scale },
                        true,
                        in_frac,
                    )
                }
            },
        }
    }
}

/// Parse plain decimal text: an optional minus sign, digits, and at most
/// one fraction; the result is normalized. Anything else is refused.
pub open spec fn spec_parse_decimal(s: Seq<char>) -> Option<Dec> {
    let neg = s.len() > 0 && s[0] == '-';
    let start: int = if neg { 1 } else { 0 };
    match spec_dec_scan(s, start, 0u64, 0u32, false, false) {
        Option::None => Option::None,
        Option::Some((mant, scale, _)) => Option::Some(
            spec_norm_dec(neg, spec_cap_scale(mant, scale).0, spec_cap_scale(mant, scale).1),
        ),
    }
}

/// Parse plain decimal text into a normalized decimal.
pub fn parse_decimal(s: &Vec<char>) -> (r: Option<Dec>)
    ensures
        r == spec_parse_decimal(s@),
        r is Some ==> dec_wf(r.unwrap()),
{
    let mut i: usize = 0;
    let mut neg = false;
    if s.len() > 0 && s[0] == '-' {
        neg = true;
        i = 1;
    }
    let mut mant: u64 = 0;
    let mut scale: u32 = 0;
    let mut seen_digit = false;
    let mut in_frac = false;
    while i < s.len()
        invariant
            i <= s@.len(),
            neg == (s@.len() > 0 && s@[0] == '-'),
            spec_dec_scan(s@, if neg { 1int } else { 0int }, 0u64, 0u32, false, false)
                == spec_dec_scan(s@, i as int, mant, scale, seen_digit, in_frac),
            scale <= 1000,
        decreases s@.len() - i,
    {
        let c = s[i];
        if c == '.' {
            if in_frac || !seen_digit {
                return None;
            }
            in_frac = true;
        } else {
            match digit_value(c) {
                None => {
                    return None;
                },
                Some(d) => {
                    if mant > 0xffff_ffff_ffff_ffffu64 / 10 {
                        return None;
                    }
                    let m10 = mant * 10;
                    if m10 > 0xffff_ffff_ffff_ffffu64 - d {
                        return None;
                    }
                    if in_frac && scale >= 1000 {
                        return None;
                    }
                    mant = m10 + d;
                    seen_digit = true;
                    if in_frac {
                        scale = scale + 1;
                    }
                },
            }
        }
        i = i + 1;
    }
    if !seen_digit {
        return None;
    }
    Some(Dec::new(neg, mant, scale))
}

/// Scan unsigned decimal digits from `i` on, carrying the value read.
pub open spec fn spec_u64_scan(s: Seq<char>, i: int, acc: u64) -> Option<u64>
    decreases s.len() - i,
{
    if i < 0 {
        Option::None
    } else if i >= s.len() {
        Option::Some(acc)
    } else {
        match spec_digit_value(s[i]) {
            Option::None => Option::None,
            Option::Some(d) => {
                if acc > 0xffff_ffff_ffff_ffffu64 / 10 || acc * 10 > 0xffff_ffff_ffff_ffffu64
                    - d {
                    Option::None
                } else {
                    spec_u64_scan(s, i + 1, (acc * 10 + d) as u64)
                }
            },
        }
    }
}

/// Parse unsigned decimal text; empty or non-digit text is refused.
pub open spec fn spec_parse_u64(s: Seq<char>) -> Option<u64> {
    if s.len() == 0 {
        Option::None
    } else {
        spec_u64_scan(s, 0, 0u64)
    }
}

/// Parse unsigned decimal text.
pub fn parse_u64(s: &Vec<char>) -> (r: Option<u64>)
    ensures
        r == spec_parse_u64(s@),
{
    if s.len() == 0 {
        return None;
    }
    let mut i: usize = 0;
    let mut acc: u64 = 0;
    while i < s.len()
        invariant
            i <= s@.len(),
            spec_u64_scan(s@, 0, 0u64) == spec_u64_scan(s@, i as int, acc),
        decreases s@.len() - i,
    {
        match digit_value(s[i]) {
            None => {
                return None;
            },
            Some(d) => {
                if acc > 0xffff_ffff_ffff_ffffu64 / 10 {
                    return None;
                }
                let a10 = acc * 10;
                if a10 > 0xffff_ffff_ffff_ffffu64 - d {
                    return None;
                }
                acc = a10 + d;
            },
        }
        i = i + 1;
    }
    Some(acc)
}

/// Compare two character vectors for equality of their contents.
pub fn chars_eq(a: &Vec<char>, b: &Vec<char>) -> (r: bool)
    ensures
        r == (a@ == b@),
{
    if a.len() != b.len() {
        return false;
    }
    let mut i: usize = 0;
    while i < a.len()
        invariant
            i <= a@.len(),
            a@.len() == b@.len(),
            forall|j: int| 0 <= j < i ==> a@[j] == b@[j],
        decreases a@.len() - i,
    {
        if a[i] != b[i] {
            return false;
        }
        i = i + 1;
    }
    proof {
        assert(a@ =~= b@);
    }
    true
}

/// The hexadecimal digit characters of `d`, which must be below sixteen.
pub open spec fn spec_hex_digit(d: nat) -> char {
    if d == 0 { '0' }
    else if d == 1 { '1' }
    else if d == 2 { '2' }
    else if d == 3 { '3' }
    else if d == 4 { '4' }
    else if d == 5 { '5' }
    else if d == 6 { '6' }
    else if d == 7 { '7' }
    else if d == 8 { '8' }
    else if d == 9 { '9' }
    else if d == 10 { 'a' }
    else if d == 11 { 'b' }
    else if d == 12 { 'c' }
    else if d == 13 { 'd' }
    else if d == 14 { 'e' }
    else { 'f' }
}

fn hex_digit_char(d: u32) -> (c: char)
    requires
        d < 16,
    ensures
        c == spec_hex_digit(d as nat),
{
    if d == 0 { '0' }
    else if d == 1 { '1' }
    else if d == 2 { '2' }
    else if d == 3 { '3' }
    else if d == 4 { '4' }
    else if d == 5 { '5' }
    else if d == 6 { '6' }
    else if d == 7 { '7' }
    else if d == 8 { '8' }
    else if d == 9 { '9' }
    else if d == 10 { 'a' }
    else if d == 11 { 'b' }
    else if d == 12 { 'c' }
    else if d == 13 { 'd' }
    else if d == 14 { 'e' }
    else { 'f' }
}

/// How one character appears inside an encoded string literal: quotes,
/// backslashes and control characters are escaped.
pub open spec fn spec_escape_char(c: char) -> Seq<char> {
    if c == '"' {
        seq!['\\', '"']
    } else if c == '\\' {
        seq!['\\', '\\']
    } else if c == '\u{8}' {
        seq!['\\', 'b']
    } else if c == '\u{c}' {
        seq!['\\', 'f']
    } else if c == '\n' {
        seq!['\\', 'n']
    } else if c == '\r' {
        seq!['\\', 'r']
    } else if c == '\t' {
        seq!['\\', 't']
    } else if (c as u32) < 32 {
        seq!['\\', 'u', '0', '0', spec_hex_digit((c as u32) as nat / 16), spec_hex_digit(
            (c as u32) as nat % 16,
        )]
    } else {
        seq![c]
    }
}

/// The escaped form of `s` from index `i` on.
pub open spec fn spec_escape_from(s: Seq<char>, i: int) -> Seq<char>
    decreases s.len() - i,
{
    if i < 0 || i >= s.len() {
        Seq::empty()
    } else {
        spec_escape_char(s[i]) + spec_escape_from(s, i + 1)
    }
}

fn escape_into(dst: &mut Vec<char>, s: &Vec<char>)
    ensures
        final(dst)@ == old(dst)@ + spec_escape_from(s@, 0),
    decreases s@.len(),
{
    let mut i: usize = 0;
    while i < s.len()
        invariant
            i <= s@.len(),
            dst@ + spec_escape_from(s@, i as int) == old(dst)@ + spec_escape_from(s@, 0),
        decreases s@.len() - i,
    {
        let c = s[i];
        let ghost pre = dst@;
        if c == '"' {
            dst.push('\\');
            dst.push('"');
        } else if c == '\\' {
            dst.push('\\');
            dst.push('\\');
        } else if c == '\u{8}' {
            dst.push('\\');
            dst.push('b');
        } else if c == '\u{c}' {
            dst.push('\\');
            dst.push('f');
        } else if c == '\n' {
            dst.push('\\');
            dst.push('n');
        } else if c == '\r' {
            dst.push('\\');
            dst.push('r');
        } else if c == '\t' {
            dst.push('\\');
            dst.push('t');
        } else if (c as u32) < 32 {
            dst.push('\\');
            dst.push('u');
            dst.push('0');
            dst.push('0');
            dst.push(hex_digit_char((c as u32) / 16));
            dst.push(hex_digit_char((c as u32) % 16));
        } else {
            dst.push(c);
        }
        proof {
            assert(dst@ =~= pre + spec_escape_char(s@[i as int]));
            assert(pre + spec_escape_char(s@[i as int]) + spec_escape_from(s@, i + 1) =~= pre
                + spec_escape_from(s@, i as int));
        }
        i = i + 1;
    }
}

/// The compact encoded text of a value: `null`, `true`/`false`, decimal
/// numbers, quoted strings, bracketed arrays and braced objects.
pub open spec fn spec_json(v: ValueV) -> Seq<char>
    decreases v, 0int, 0int,
{
    match v {
        ValueV::Null => seq!['n', 'u', 'l', 'l'],
        ValueV::Bool(b) => if b {
            seq!['t', 'r', 'u', 'e']
        } else {
            seq!['f', 'a', 'l', 's', 'e']
        },
        ValueV::Num(d) => spec_dec_chars(d),
        ValueV::Str(s) => seq!['"'] + spec_escape_from(s, 0) + seq!['"'],
        ValueV::Arr(a) => seq!['['] + spec_json_items(a, 0) + seq![']'],
        ValueV::Obj(o) => seq!['{'] + spec_json_entries(o, 0) + seq!['}'],
    }
}

/// The comma-separated encodings of the items of `a` from index `i` on.
pub open spec fn spec_json_items(a: Seq<ValueV>, i: int) -> Seq<char>
    decreases a, 1int, a.len() - i,
{
    if i < 0 || i >= a.len() {
        Seq::empty()
    } else if i == a.len() - 1 {
        spec_json(a[i])
    } else {
        spec_json(a[i]) + seq![','] + spec_json_items(a, i + 1)
    }
}

/// The comma-separated `"key":value` encodings of the entries of `o` from
/// index `i` on.
pub open spec fn spec_json_entries(o: Seq<(Seq<char>, ValueV)>, i: int) -> Seq<char>
    decreases o, 1int, o.len() - i,
{
    if i < 0 || i >= o.len() {
        Seq::empty()
    } else {
        let entry = seq!['"'] + spec_escape_from(o[i].0, 0) + seq!['"', ':'] + spec_json(o[i].1);
        if i == o.len() - 1 {
            entry
        } else {
            entry + seq![','] + spec_json_entries(o, i + 1)
        }
    }
}

/// Append the encoded text of `v` to `dst`.
pub fn json_into(dst: &mut Vec<char>, v: &JsonValue)
    ensures
        final(dst)@ == old(dst)@ + spec_json(value_view(*v)),
    decreases *v, 0int, 0int,
{
    match v {
        JsonValue::Null => {
            dst.push('n');
            dst.push('u');
            dst.push('l');
            dst.push('l');
            proof {
                assert(dst@ =~= old(dst)@ + spec_json(value_view(*v)));
            }
        },
        JsonValue::Bool(b) => {
            if *b {
                dst.push('t');
                dst.push('r');
                dst.push('u');
                dst.push('e');
            } else {
                dst.push('f');
                dst.push('a');
                dst.push('l');
                dst.push('s');
                dst.push('e');
            }
            proof {
                assert(dst@ =~= old(dst)@ + spec_json(value_view(*v)));
            }
        },
        JsonValue::Num(d) => {
            let t = dec_chars(d);
            push_chars(dst, &t);
        },
        JsonValue::Str(s) => {
            dst.push('"');
            escape_into(dst, s);
            dst.push('"');
            proof {
                assert(dst@ =~= old(dst)@ + spec_json(value_view(*v)));
            }
        },
        JsonValue::Arr(a) => {
            dst.push('[');
            json_items_into(dst, a, 0);
            dst.push(']');
            proof {
                assert(dst@ =~= old(dst)@ + spec_json(value_view(*v)));
            }
        },
        JsonValue::Obj(o) => {
            dst.push('{');
            json_entries_into(dst, o, 0);
            dst.push('}');
            proof {
                assert(dst@ =~= old(dst)@ + spec_json(value_view(*v)));
            }
        },
    }
}

fn json_items_into(dst: &mut Vec<char>, a: &Vec<JsonValue>, i: usize)
    ensures
        final(dst)@ == old(dst)@ + spec_json_items(values_view(a@), i as int),
    decreases a@, 1int, a@.len() - i,
{
    proof {
        lemma_values_view_len(a@);
    }
    if i >= a.len() {
        proof {
            assert(dst@ =~= old(dst)@ + spec_json_items(values_view(a@), i as int));
        }
        return ;
    }
    proof {
        lemma_values_view_index(a@, i as int);
        assert(decreases_to!(a@ => a@[i as int]));
    }
    json_into(dst, &a[i]);
    if i + 1 < a.len() {
        dst.push(',');
        json_items_into(dst, a, i + 1);
        proof {
            assert(dst@ =~= old(dst)@ + spec_json_items(values_view(a@), i as int));
        }
    } else {
        proof {
            assert(dst@ =~= old(dst)@ + spec_json_items(values_view(a@), i as int));
        }
    }
}

fn json_entries_into(dst: &mut Vec<char>, o: &Vec<(Vec<char>, JsonValue)>, i: usize)
    ensures
        final(dst)@ == old(dst)@ + spec_json_entries(entries_view(o@), i as int),
    decreases o@, 1int, o@.len() - i,
{
    proof {
        lemma_entries_view_len(o@);
    }
    if i >= o.len() {
        proof {
            assert(dst@ =~= old(dst)@ + spec_json_entries(entries_view(o@), i as int));
        }
        return ;
    }
    proof {
        lemma_entries_view_index(o@, i as int);
        assert(decreases_to!(o@ => o@[i as int]));
    }
    dst.push('"');
    escape_into(dst, &o[i].0);
    dst.push('"');
    dst.push(':');
    json_into(dst, &o[i].1);
    if i + 1 < o.len() {
        dst.push(',');
        json_entries_into(dst, o, i + 1);
        proof {
            assert(dst@ =~= old(dst)@ + spec_json_entries(entries_view(o@), i as int));
        }
    } else {
        proof {
            assert(dst@ =~= old(dst)@ + spec_json_entries(entries_view(o@), i as int));
        }
    }
}

/// How a value reads when substituted into rendered text: strings verbatim,
/// numbers in decimal, booleans as `true`/`false`, null as nothing, and
/// containers in their encoded form.
pub open spec fn spec_value_chars(v: ValueV) -> Seq<char> {
    match v {
        ValueV::Str(s) => s,
        ValueV::Num(d) => spec_dec_chars(d),
        ValueV::Bool(b) => if b {
            seq!['t', 'r', 'u', 'e']
        } else {
            seq!['f', 'a', 'l', 's', 'e']
        },
        ValueV::Null => Seq::empty(),
        _ => spec_json(v),
    }
}

/// Render a value as substitution text.
pub fn value_chars(v: &JsonValue) -> (r: Vec<char>)
    ensures
        r@ == spec_value_chars(value_view(*v)),
{
    match v {
        JsonValue::Str(s) => {
            let mut r: Vec<char> = Vec::new();
            push_chars(&mut r, s);
            proof {
                assert(r@ =~= spec_value_chars(value_view(*v)));
            }
            r
        },
        JsonValue::Num(d) => dec_chars(d),
        JsonValue::Bool(b) => {
            let mut r: Vec<char> = Vec::new();
            if *b {
                r.push('t');
                r.push('r');
                r.push('u');
                r.push('e');
            } else {
                r.push('f');
                r.push('a');
                r.push('l');
                r.push('s');
                r.push('e');
            }
            proof {
                assert(r@ =~= spec_value_chars(value_view(*v)));
            }
            r
        },
        JsonValue::Null => Vec::new(),
        _ => {
            let mut r: Vec<char> = Vec::new();
            json_into(&mut r, v);
            r
        },
    }
}

/// Look a key up in a sequence of bindings; the latest binding wins.
pub open spec fn spec_assoc_get(s: Seq<(Seq<char>, ValueV)>, key: Seq<char>) -> Option<ValueV>
    decreases s.len(),
{
    if s.len() == 0 {
        Option::None
    } else if s.last().0 == key {
        Option::Some(s.last().1)
    } else {
        spec_assoc_get(s.drop_last(), key)
    }
}

proof fn lemma_entries_view_subrange(s: Seq<(Vec<char>, JsonValue)>, i: int)
    requires
        0 <= i <= s.len(),
    ensures
        entries_view(s.subrange(0, i)).len() == i,
        forall|j: int|
            0 <= j < i ==> entries_view(s.subrange(0, i))[j] == (s[j].0@, value_view(s[j].1)),
{
    lemma_entries_view_len(s.subrange(0, i));
    assert forall|j: int| 0 <= j < i implies entries_view(s.subrange(0, i))[j] == (
        s[j].0@,
        value_view(s[j].1),
    ) by {
        lemma_entries_view_index(s.subrange(0, i), j);
    }
}

/// Find the value bound to `key`, scanning the latest bindings first.
pub fn assoc_get<'a>(entries: &'a Vec<(Vec<char>, JsonValue)>, key: &Vec<char>) -> (r: Option<
    &'a JsonValue,
>)
    ensures
        match spec_assoc_get(entries_view(entries@), key@) {
            Option::Some(vv) => r.is_some() && value_view(*r.unwrap()) == vv,
            Option::None => r.is_none(),
        },
{
    let ghost full = entries_view(entries@);
    let mut i: usize = entries.len();
    proof {
        assert(entries@.subrange(0, entries@.len() as int) =~= entries@);
    }
    while i > 0
        invariant
            i <= entries@.len(),
            full == entries_view(entries@),
            spec_assoc_get(full, key@) == spec_assoc_get(
                entries_view(entries@.subrange(0, i as int)),
                key@,
            ),
        decreases i,
    {
        i = i - 1;
        let hit = chars_eq(&entries[i].0, key);
        proof {
            lemma_entries_view_subrange(entries@, i + 1);
            lemma_entries_view_subrange(entries@, i as int);
            let cur = entries_view(entries@.subrange(0, i + 1));
            assert(cur.last() == (entries@[i as int].0@, value_view(entries@[i as int].1)));
            if !hit {
                assert(cur.drop_last() =~= entries_view(entries@.subrange(0, i as int)));
            }
        }
        if hit {
            return Some(&entries[i].1);
        }
    }
    proof {
        assert(entries@.subrange(0, 0) =~= Seq::<(Vec<char>, JsonValue)>::empty());
    }
    None
}

/// Deep-copy a value; the copy has the same model.
#[verifier::loop_isolation(false)]
pub fn value_clone(v: &JsonValue) -> (r: JsonValue)
    ensures
        value_view(r) == value_view(*v),
    decreases *v,
{
    match v {
        JsonValue::Null => JsonValue::Null,
        JsonValue::Bool(b) => JsonValue::Bool(*b),
        JsonValue::Num(d) => JsonValue::Num(*d),
        JsonValue::Str(s) => {
            let mut t: Vec<char> = Vec::new();
            push_chars(&mut t, s);
            proof {
                assert(t@ =~= s@);
            }
            JsonValue::Str(t)
        },
        JsonValue::Arr(a) => {
            let mut t: Vec<JsonValue> = Vec::new();
            let mut i: usize = 0;
            while i < a.len()
                invariant
                    i <= a@.len(),
                    t@.len() == i,
                    forall|j: int| 0 <= j < i ==> value_view(t@[j]) == value_view(a@[j]),
                decreases a@.len() - i,
            {
                proof {
                    vstd::std_specs::vec::axiom_vec_index_decreases(*a, i as int);
                    assert(v->Arr_0 == *a);
                    assert(decreases_to!(*v => v->Arr_0));
                }
                let c = value_clone(&a[i]);
                t.push(c);
                i = i + 1;
            }
            proof {
                lemma_values_view_len(t@);
                lemma_values_view_len(a@);
                assert forall|j: int| 0 <= j < a@.len() implies values_view(t@)[j] == values_view(
                    a@,
                )[j] by {
                    lemma_values_view_index(t@, j);
                    lemma_values_view_index(a@, j);
                }
                assert(values_view(t@) =~= values_view(a@));
            }
            JsonValue::Arr(t)
        },
        JsonValue::Obj(o) => {
            let mut t: Vec<(Vec<char>, JsonValue)> = Vec::new();
            let mut i: usize = 0;
            while i < o.len()
                invariant
                    i <= o@.len(),
                    t@.len() == i,
                    forall|j: int|
                        0 <= j < i ==> t@[j].0@ == o@[j].0@ && value_view(t@[j].1) == value_view(
                            o@[j].1,
                        ),
                decreases o@.len() - i,
            {
                let mut k: Vec<char> = Vec::new();
                push_chars(&mut k, &o[i].0);
                proof {
                    assert(k@ =~= o@[i as int].0@);
                    vstd::std_specs::vec::axiom_vec_index_decreases(*o, i as int);
                    assert(v->Obj_0 == *o);
                    assert(decreases_to!(*v => v->Obj_0));
                    assert(decreases_to!(o@[i as int] => o@[i as int].1));
                }
                let c = value_clone(&o[i].1);
                t.push((k, c));
                i = i + 1;
            }
            proof {
                lemma_entries_view_len(t@);
                lemma_entries_view_len(o@);
                assert forall|j: int| 0 <= j < o@.len() implies entries_view(t@)[j] == entries_view(
                    o@,
                )[j] by {
                    lemma_entries_view_index(t@, j);
                    lemma_entries_view_index(o@, j);
                }
                assert(entries_view(t@) =~= entries_view(o@));
            }
            JsonValue::Obj(t)
        },
    }
}

impl JsonValue {
    /// The string value holding the characters of `s`.
    pub fn str_of(s: &str) -> (r: JsonValue)
        ensures
            value_view(r) == ValueV::Str(s@),
    {
        JsonValue::Str(crate::chars::str_to_chars(s))
    }

    /// The number value `(-1)^neg * mant / 10^scale`, normalized.
    pub fn number(neg: bool, mant: u64, scale: u32) -> (r: JsonValue)
        ensures
            value_view(r) == ValueV::Num(
                spec_norm_dec(neg, spec_cap_scale(mant, scale).0, spec_cap_scale(mant, scale).1),
            ),
    {
        JsonValue::Num(Dec::new(neg, mant, scale))
    }

    /// The whole-number value `n`.
    pub fn int_of(n: i64) -> (r: JsonValue)
        ensures
            value_view(r) == ValueV::Num(
                spec_norm_dec(n < 0, (if n < 0 {
                    -(n as int)
                } else {
                    n as int
                }) as u64, 0),
            ),
    {
        if n < 0 {
            if n == i64::MIN {
                JsonValue::Num(Dec::from_int(true, 9223372036854775808u64))
            } else {
                JsonValue::Num(Dec::from_int(true, (-n) as u64))
            }
        } else {
            JsonValue::Num(Dec::from_int(false, n as u64))
        }
    }

    /// The empty array value.
    pub fn empty_array() -> (r: JsonValue)
        ensures
            value_view(r) == ValueV::Arr(Seq::<ValueV>::empty()),
    {
        JsonValue::Arr(Vec::new())
    }

    /// This array value with `item` appended.
    pub fn arr_push(self, item: JsonValue) -> (r: JsonValue)
        ensures
            value_view(self) is Arr ==> value_view(r) == ValueV::Arr(
                value_view(self)->Arr_0.push(value_view(item)),
            ),
            !(value_view(self) is Arr) ==> value_view(r) == value_view(self),
    {
        match self {
            JsonValue::Arr(mut a) => {
                let ghost pre = a@;
                a.push(item);
                proof {
                    lemma_values_view_len(pre);
                    lemma_values_view_len(a@);
                    assert forall|j: int| 0 <= j < a@.len() implies values_view(a@)[j]
                        == values_view(pre).push(value_view(item))[j] by {
                        lemma_values_view_index(a@, j);
                        if j < pre.len() {
                            lemma_values_view_index(pre, j);
                        }
                    }
                    assert(values_view(a@) =~= values_view(pre).push(value_view(item)));
                }
                JsonValue::Arr(a)
            },
            other => other,
        }
    }

    /// The empty object value.
    pub fn empty_object() -> (r: JsonValue)
        ensures
            value_view(r) == ValueV::Obj(Seq::<(Seq<char>, ValueV)>::empty()),
    {
        JsonValue::Obj(Vec::new())
    }

    /// This object value with `key` bound to `item`; a later binding of the
    /// same key shadows an earlier one.
    pub fn obj_set(self, key: &str, item: JsonValue) -> (r: JsonValue)
        ensures
            value_view(self) is Obj ==> value_view(r) == ValueV::Obj(
                value_view(self)->Obj_0.push((key@, value_view(item))),
            ),
            !(value_view(self) is Obj) ==> value_view(r) == value_view(self),
    {
        match self {
            JsonValue::Obj(mut o) => {
                let ghost pre = o@;
                let k = crate::chars::str_to_chars(key);
                o.push((k, item));
                proof {
                    lemma_entries_view_len(pre);
                    lemma_entries_view_len(o@);
                    assert forall|j: int| 0 <= j < o@.len() implies entries_view(o@)[j]
                        == entries_view(pre).push((key@, value_view(item)))[j] by {
                        lemma_entries_view_index(o@, j);
                        if j < pre.len() {
                            lemma_entries_view_index(pre, j);
                        }
                    }
                    assert(entries_view(o@) =~= entries_view(pre).push((key@, value_view(item))));
                }
                JsonValue::Obj(o)
            },
            other => other,
        }
    }
}

/// Deep-copy a list of bindings; the copy has the same model.
pub fn clone_entries(src: &Vec<(Vec<char>, JsonValue)>) -> (r: Vec<(Vec<char>, JsonValue)>)
    ensures
        entries_view(r@) == entries_view(src@),
{
    let mut e: Vec<(Vec<char>, JsonValue)> = Vec::new();
    let mut i: usize = 0;
    while i < src.len()
        invariant
            i <= src@.len(),
            e@.len() == i,
            forall|j: int|
                0 <= j < i ==> e@[j].0@ == src@[j].0@ && value_view(e@[j].1) == value_view(
                    src@[j].1,
                ),
        decreases src@.len() - i,
    {
        let mut k: Vec<char> = Vec::new();
        push_chars(&mut k, &src[i].0);
        proof {
            assert(k@ =~= src@[i as int].0@);
        }
        let c = value_clone(&src[i].1);
        e.push((k, c));
        i = i + 1;
    }
    proof {
        lemma_entries_view_len(e@);
        lemma_entries_view_len(src@);
        assert forall|j: int| 0 <= j < src@.len() implies entries_view(e@)[j] == entries_view(
            src@,
        )[j] by {
            lemma_entries_view_index(e@, j);
            lemma_entries_view_index(src@, j);
        }
        assert(entries_view(e@) =~= entries_view(src@));
    }
    e
}

/// Append clones of `src`'s bindings to `dst`.
pub fn append_cloned_entries(
    dst: &mut Vec<(Vec<char>, JsonValue)>,
    src: &Vec<(Vec<char>, JsonValue)>,
)
    ensures
        entries_view(final(dst)@) == entries_view(old(dst)@) + entries_view(src@),
{
    let ghost pre = dst@;
    let mut more = clone_entries(src);
    let ghost morev = more@;
    dst.append(&mut more);
    proof {
        lemma_entries_view_len(pre);
        lemma_entries_view_len(dst@);
        lemma_entries_view_len(src@);
        lemma_entries_view_len(morev);
        assert forall|j: int| 0 <= j < dst@.len() implies entries_view(dst@)[j] == (entries_view(
            pre,
        ) + entries_view(src@))[j] by {
            lemma_entries_view_index(dst@, j);
            if j < pre.len() {
                lemma_entries_view_index(pre, j);
            } else {
                lemma_entries_view_index(morev, j - pre.len());
            }
        }
        assert(entries_view(dst@) =~= entries_view(pre) + entries_view(src@));
    }
}

/// A variable context: bindings from names to values, later bindings
/// shadowing earlier ones.
#[derive(Debug)]
pub struct VarMap {
    entries: Vec<(Vec<char>, JsonValue)>,
}

impl View for VarMap {
    type V = Seq<(Seq<char>, ValueV)>;

    closed spec fn view(&self) -> Seq<(Seq<char>, ValueV)> {
        entries_view(self.entries@)
    }
}

impl VarMap {
    /// The empty context.
    pub fn new() -> (r: VarMap)
        ensures
            r@ == Seq::<(Seq<char>, ValueV)>::empty(),
    {
        let r = VarMap { entries: Vec::new() };
        proof {
            assert(r@ =~= Seq::<(Seq<char>, ValueV)>::empty());
        }
        r
    }

    /// The number of bindings.
    pub fn len(&self) -> (r: usize)
        ensures
            r == self@.len(),
    {
        proof {
            lemma_entries_view_len(self.entries@);
        }
        self.entries.len()
    }

    /// This context with `key` bound to `value`.
    pub fn set(self, key: &str, value: JsonValue) -> (r: VarMap)
        ensures
            r@ == self@.push((key@, value_view(value))),
    {
        let mut e = self.entries;
        let ghost pre = e@;
        let k = crate::chars::str_to_chars(key);
        e.push((k, value));
        proof {
            lemma_entries_view_len(pre);
            lemma_entries_view_len(e@);
            assert forall|j: int| 0 <= j < e@.len() implies entries_view(e@)[j] == entries_view(
                pre,
            ).push((key@, value_view(value)))[j] by {
                lemma_entries_view_index(e@, j);
                if j < pre.len() {
                    lemma_entries_view_index(pre, j);
                }
            }
            assert(entries_view(e@) =~= entries_view(pre).push((key@, value_view(value))));
        }
        VarMap { entries: e }
    }

    /// Bind `key` (already as characters) to `value`.
    pub fn push_binding(&mut self, key: Vec<char>, value: JsonValue)
        ensures
            final(self)@ == old(self)@.push((key@, value_view(value))),
    {
        let ghost pre = self.entries@;
        let ghost kv = key@;
        let ghost vv = value_view(value);
        self.entries.push((key, value));
        proof {
            lemma_entries_view_len(pre);
            lemma_entries_view_len(self.entries@);
            assert forall|j: int| 0 <= j < self.entries@.len() implies entries_view(
                self.entries@,
            )[j] == entries_view(pre).push((kv, vv))[j] by {
                lemma_entries_view_index(self.entries@, j);
                if j < pre.len() {
                    lemma_entries_view_index(pre, j);
                }
            }
            assert(entries_view(self.entries@) =~= entries_view(pre).push((kv, vv)));
        }
    }

    /// Look `key` up; the latest binding wins.
    pub fn get<'a>(&'a self, key: &Vec<char>) -> (r: Option<&'a JsonValue>)
        ensures
            match spec_assoc_get(self@, key@) {
                Option::Some(vv) => r.is_some() && value_view(*r.unwrap()) == vv,
                Option::None => r.is_none(),
            },
    {
        assoc_get(&self.entries, key)
    }

    /// The underlying bindings, latest last.
    pub fn entries_ref(&self) -> (r: &Vec<(Vec<char>, JsonValue)>)
        ensures
            entries_view(r@) == self@,
    {
        &self.entries
    }

    /// Deep-copy the context.
    pub fn duplicate(&self) -> (r: VarMap)
        ensures
            r@ == self@,
    {
        VarMap { entries: clone_entries(&self.entries) }
    }

    /// This context extended with every binding of `other`; `other`'s
    /// bindings are later, so they win on a name clash.
    pub fn extend_with(self, other: &VarMap) -> (r: VarMap)
        ensures
            r@ == self@ + other@,
    {
        let ghost selfe = self.entries@;
        let ghost pre = entries_view(self.entries@);
        let mut e = self.entries;
        let mut more = clone_entries(&other.entries);
        let ghost morev = more@;
        e.append(&mut more);
        proof {
            lemma_entries_view_len(selfe);
            lemma_entries_view_len(e@);
            lemma_entries_view_len(other.entries@);
            lemma_entries_view_len(morev);
            assert forall|j: int| 0 <= j < e@.len() implies entries_view(e@)[j] == (pre
                + entries_view(other.entries@))[j] by {
                lemma_entries_view_index(e@, j);
                if j < pre.len() {
                    lemma_entries_view_index(selfe, j);
                } else {
                    lemma_entries_view_index(morev, j - pre.len());
                }
            }
            assert(entries_view(e@) =~= pre + entries_view(other.entries@));
        }
        VarMap { entries: e }
    }

    /// A context holding clones of the given bindings.
    pub fn from_entries(entries: &Vec<(Vec<char>, JsonValue)>) -> (r: VarMap)
        ensures
            r@ == entries_view(entries@),
    {
        VarMap { entries: clone_entries(entries) }
    }
}

impl Clone for JsonValue {
    /// The clone has the same model.
    fn clone(&self) -> (r: JsonValue)
        ensures
            value_view(r) == value_view(*self),
    {
        value_clone(self)
    }
}

impl Clone for VarMap {
    /// The clone has the same model.
    fn clone(&self) -> (r: VarMap)
        ensures
            r@ == self@,
    {
        self.duplicate()
    }
}

} // verus!
