//! Floating-point numbers held as their IEEE-754 binary64 components
//! (mantissa, unbiased exponent, sign) rather than as a native float.
//!
//! A `Float` is built from the 64 raw bits of a binary64 number with
//! [`Float::from_bits`], and gives those bits back with [`Float::to_bits`];
//! the two are inverse to each other.  Arithmetic rounds to nearest, ties to
//! even, as binary64 arithmetic does.
use vstd::prelude::*;
use rustc_apfloat::ieee::Double;
use rustc_apfloat::Float as ApFloat;
use rustc_apfloat::Round;

verus! {

/// The significand of a binary64 number, including the hidden bit of
/// normal numbers (a subnormal's stored fraction is shifted left by one).
#[derive(Debug, Clone, Copy, PartialEq, Eq, Structural, PartialOrd, Ord, Hash)]
pub struct Mantissa(u64);

/// The unbiased exponent of a binary64 number (`stored exponent - 1075`).
#[derive(Debug, Clone, Copy, PartialEq, Eq, Structural, PartialOrd, Ord, Hash)]
pub struct Exponent(i16);

/// The sign of a number: `1` for positive, `-1` for negative.
#[derive(Debug, Clone, Copy, PartialEq, Eq, Structural, PartialOrd, Ord, Hash)]
pub struct Sign(i8);

impl View for Mantissa {
    type V = u64;

    closed spec fn view(&self) -> u64 {
        self.0
    }
}

impl View for Exponent {
    type V = i16;

    closed spec fn view(&self) -> i16 {
        self.0
    }
}

impl View for Sign {
    type V = i8;

    closed spec fn view(&self) -> i8 {
        self.0
    }
}

/// The bits of the stored fraction of a binary64 number.
pub const FRACTION_MASK: u64 = 0xfffffffffffff;

/// The hidden leading bit of a normal binary64 number.
pub const HIDDEN_BIT: u64 = 0x10000000000000;

/// The bias that turns a stored exponent field into the unbiased exponent of
/// the integer mantissa (`1023 + 52`).
pub const EXPONENT_BIAS: i16 = 1075;

/// The sign the bits of a binary64 number carry.
pub open spec fn bits_sign(bits: u64) -> i8 {
    if bits >> 63u64 == 0 { 1i8 } else { -1i8 }
}

/// The stored (biased) exponent field of a binary64 number.
pub open spec fn bits_exponent_field(bits: u64) -> u64 {
    (bits >> 52u64) & 0x7ffu64
}

/// The unbiased exponent the bits of a binary64 number carry.
pub open spec fn bits_exponent(bits: u64) -> i16 {
    (bits_exponent_field(bits) - 1075) as i16
}

/// The mantissa the bits of a binary64 number carry.
pub open spec fn bits_mantissa(bits: u64) -> u64 {
    if bits_exponent_field(bits) == 0 {
        (bits & 0xfffffffffffffu64) << 1u64
    } else {
        (bits & 0xfffffffffffffu64) | 0x10000000000000u64
    }
}

/// The bits of the binary64 number with the given components.
pub open spec fn components_bits(mantissa: u64, exponent: i16, sign: i8) -> u64 {
    let sign_bit: u64 = if sign < 0 { 0x8000000000000000u64 } else { 0u64 };
    let biased: u64 = (exponent + 1075) as u64;
    if biased == 0 {
        sign_bit | (mantissa >> 1u64)
    } else {
        sign_bit | (biased << 52u64) | (mantissa & 0xfffffffffffffu64)
    }
}

/// The components that the bits of some binary64 number decode to.
pub open spec fn canonical_components(mantissa: u64, exponent: i16, sign: i8) -> bool {
    &&& sign == 1 || sign == -1
    &&& -1075 <= exponent <= 972
    &&& exponent == -1075 ==> mantissa % 2 == 0 && mantissa < 0x20000000000000u64
    &&& exponent != -1075 ==> 0x10000000000000u64 <= mantissa < 0x20000000000000u64
}

/// A NaN: all exponent bits set and a non-zero fraction.
pub open spec fn bits_is_nan(bits: u64) -> bool {
    bits_exponent_field(bits) == 0x7ff && bits & 0xfffffffffffffu64 != 0
}

/// Zero of either sign.
pub open spec fn bits_is_zero(bits: u64) -> bool {
    bits & 0x7fffffffffffffffu64 == 0
}

/// Equality of binary64 numbers: NaN equals nothing, the two zeros are
/// equal, and otherwise numbers are equal when their bits are.
pub open spec fn bits_equal(a: u64, b: u64) -> bool {
    if bits_is_nan(a) || bits_is_nan(b) {
        false
    } else if bits_is_zero(a) && bits_is_zero(b) {
        true
    } else {
        a == b
    }
}

/// The bits of the sum of two binary64 numbers, rounded to nearest, ties to even.
pub uninterp spec fn ieee_sum(a: u64, b: u64) -> u64;

/// The bits of the difference of two binary64 numbers, rounded to nearest, ties to even.
pub uninterp spec fn ieee_difference(a: u64, b: u64) -> u64;

/// The bits of the product of two binary64 numbers, rounded to nearest, ties to even.
pub uninterp spec fn ieee_product(a: u64, b: u64) -> u64;

/// The bits of the quotient of two binary64 numbers, rounded to nearest, ties to even.
pub uninterp spec fn ieee_quotient(a: u64, b: u64) -> u64;

/// The bits of the binary64 number nearest to an integer, ties to even.
pub uninterp spec fn ieee_from_int(i: i64) -> u64;

/// The bits of the binary64 number nearest to the number a decimal text
/// spells, as `rustc_apfloat` reads it; `None` where it reads no number.
pub uninterp spec fn decimal_double(text: Seq<char>) -> Option<u64>;

/// Reads a decimal text as a binary64 number, with `rustc_apfloat`'s
/// `Double::from_str_r` (round to nearest, ties to even). Trusted: the result
/// is named, not described.
#[verifier::external_body]
pub(crate) fn double_from_decimal(text: &str) -> (res: Option<u64>)
    ensures
        res == decimal_double(text@),
{
    match <Double as ApFloat>::from_str_r(text, Round::NearestTiesToEven) {
        Ok(parsed) => Some(parsed.value.to_bits() as u64),
        Err(_) => None,
    }
}

/// Converts an integer to the nearest binary64 number, with
/// `rustc_apfloat`'s `Double::from_i128` (round to nearest, ties to even).
/// Trusted: the result is named, not described.
#[verifier::external_body]
fn double_from_int(i: i64) -> (res: u64)
    ensures
        res == ieee_from_int(i),
{
    <Double as ApFloat>::from_i128(i as i128).value.to_bits() as u64
}

/// Adds two binary64 numbers given by their bits, with `rustc_apfloat`'s
/// `Double` addition (round to nearest, ties to even).  Trusted: the result is
/// named, not described.
#[verifier::external_body]
fn double_add(a: u64, b: u64) -> (res: u64)
    ensures
        res == ieee_sum(a, b),
{
    (<Double as ApFloat>::from_bits(a as u128) + <Double as ApFloat>::from_bits(b as u128)).value.to_bits() as u64
}

/// Subtracts two binary64 numbers given by their bits, with `rustc_apfloat`'s
/// `Double` subtraction (round to nearest, ties to even).  Trusted: the result
/// is named, not described.
#[verifier::external_body]
fn double_sub(a: u64, b: u64) -> (res: u64)
    ensures
        res == ieee_difference(a, b),
{
    (<Double as ApFloat>::from_bits(a as u128) - <Double as ApFloat>::from_bits(b as u128)).value.to_bits() as u64
}

/// Multiplies two binary64 numbers given by their bits, with `rustc_apfloat`'s
/// `Double` multiplication (round to nearest, ties to even).  Trusted: the
/// result is named, not described.
#[verifier::external_body]
fn double_mul(a: u64, b: u64) -> (res: u64)
    ensures
        res == ieee_product(a, b),
{
    (<Double as ApFloat>::from_bits(a as u128) * <Double as ApFloat>::from_bits(b as u128)).value.to_bits() as u64
}

/// Divides two binary64 numbers given by their bits, with `rustc_apfloat`'s
/// `Double` division (round to nearest, ties to even).  Trusted: the result
/// is named, not described.
#[verifier::external_body]
fn double_div(a: u64, b: u64) -> (res: u64)
    ensures
        res == ieee_quotient(a, b),
{
    (<Double as ApFloat>::from_bits(a as u128) / <Double as ApFloat>::from_bits(b as u128)).value.to_bits() as u64
}

/// Decodes the bits of a binary64 number into its `mantissa`, `exponent`
/// and `sign` components.
pub fn decode(bits: u64) -> (res: (Mantissa, Exponent, Sign))
    ensures
        res.0@ == bits_mantissa(bits),
        res.1@ == bits_exponent(bits),
        res.2@ == bits_sign(bits),
        canonical_components(res.0@, res.1@, res.2@),
{
    let sign: i8 = if bits >> 63 == 0 { 1 } else { -1 };
    let field: u64 = (bits >> 52) & 0x7ff;
    assert(field <= 0x7ff) by (bit_vector)
        requires field == (bits >> 52u64) & 0x7ffu64;
    let exponent: i16 = field as i16 - EXPONENT_BIAS;
    let mantissa: u64 = if field == 0 {
        (bits & FRACTION_MASK) << 1
    } else {
        (bits & FRACTION_MASK) | HIDDEN_BIT
    };
    proof {
        lemma_decoded_canonical(bits);
    }
    (Mantissa(mantissa), Exponent(exponent), Sign(sign))
}

/// Reassembles the bits of a binary64 number from the components produced
/// by [`decode`]; for normal numbers the hidden bit is dropped, for
/// subnormals the fraction is shifted back.
pub fn encode(mantissa: Mantissa, exponent: Exponent, sign: Sign) -> (res: u64)
    requires
        exponent@ + 1075 <= i16::MAX,
    ensures
        res == components_bits(mantissa@, exponent@, sign@),
{
    let m: u64 = mantissa.0;
    let e: i16 = exponent.0;
    let s: i8 = sign.0;
    let sign_bit: u64 = if s < 0 { 0x8000000000000000 } else { 0 };
    let biased: u64 = (e + EXPONENT_BIAS) as u64;
    if biased == 0 {
        sign_bit | (m >> 1)
    } else {
        sign_bit | (biased << 52) | (m & FRACTION_MASK)
    }
}

/// The components that any bits decode to are canonical.
pub proof fn lemma_decoded_canonical(bits: u64)
    ensures
        canonical_components(bits_mantissa(bits), bits_exponent(bits), bits_sign(bits)),
{
    let field = bits_exponent_field(bits);
    assert(field <= 0x7ff) by (bit_vector)
        requires field == (bits >> 52u64) & 0x7ffu64;
    let m = bits_mantissa(bits);
    if field == 0 {
        assert(((bits & 0xfffffffffffffu64) << 1u64) % 2 == 0 && ((bits & 0xfffffffffffffu64) << 1u64) < 0x20000000000000u64) by (bit_vector);
    } else {
        assert(0x10000000000000u64 <= ((bits & 0xfffffffffffffu64) | 0x10000000000000u64) < 0x20000000000000u64) by (bit_vector);
    }
}

/// Encoding the components that some bits decode to gives those bits back.
pub proof fn lemma_encode_decode(bits: u64)
    ensures
        components_bits(bits_mantissa(bits), bits_exponent(bits), bits_sign(bits)) == bits,
{
    let field = bits_exponent_field(bits);
    assert(field <= 0x7ff) by (bit_vector)
        requires field == (bits >> 52u64) & 0x7ffu64;
    let sign_bit: u64 = if bits_sign(bits) < 0 { 0x8000000000000000u64 } else { 0u64 };
    assert(sign_bit == bits & 0x8000000000000000u64) by (bit_vector)
        requires sign_bit == (if (if bits >> 63u64 == 0 { 1i8 } else { -1i8 }) < 0 { 0x8000000000000000u64 } else { 0u64 });
    assert((bits_exponent(bits) + 1075) as u64 == field);
    if field == 0 {
        assert(bits == (bits & 0x8000000000000000u64) | (((bits & 0xfffffffffffffu64) << 1u64) >> 1u64)) by (bit_vector)
            requires (bits >> 52u64) & 0x7ffu64 == 0u64;
    } else {
        assert(bits == (bits & 0x8000000000000000u64) | (((bits >> 52u64) & 0x7ffu64) << 52u64) | (((bits & 0xfffffffffffffu64) | 0x10000000000000u64) & 0xfffffffffffffu64)) by (bit_vector);
    }
}

/// Decoding the bits that canonical components encode to gives those
/// components back.
pub proof fn lemma_decode_encode(mantissa: u64, exponent: i16, sign: i8)
    requires
        canonical_components(mantissa, exponent, sign),
    ensures
        bits_mantissa(components_bits(mantissa, exponent, sign)) == mantissa,
        bits_exponent(components_bits(mantissa, exponent, sign)) == exponent,
        bits_sign(components_bits(mantissa, exponent, sign)) == sign,
{
    let bits = components_bits(mantissa, exponent, sign);
    let sign_bit: u64 = if sign < 0 { 0x8000000000000000u64 } else { 0u64 };
    let biased: u64 = (exponent + 1075) as u64;
    assert(biased <= 2047);
    if biased == 0 {
        assert(bits == sign_bit | (mantissa >> 1u64));
        assert(mantissa % 2 == 0 && mantissa < 0x20000000000000u64);
        assert((sign_bit | (mantissa >> 1u64)) >> 63u64 == sign_bit >> 63u64
            && ((sign_bit | (mantissa >> 1u64)) >> 52u64) & 0x7ffu64 == 0
            && ((sign_bit | (mantissa >> 1u64)) & 0xfffffffffffffu64) << 1u64 == mantissa) by (bit_vector)
            requires
                mantissa % 2 == 0,
                mantissa < 0x20000000000000u64,
                sign_bit == 0x8000000000000000u64 || sign_bit == 0u64;
    } else {
        assert(bits == sign_bit | (biased << 52u64) | (mantissa & 0xfffffffffffffu64));
        assert((sign_bit | (biased << 52u64) | (mantissa & 0xfffffffffffffu64)) >> 63u64 == sign_bit >> 63u64
            && ((sign_bit | (biased << 52u64) | (mantissa & 0xfffffffffffffu64)) >> 52u64) & 0x7ffu64 == biased
            && ((sign_bit | (biased << 52u64) | (mantissa & 0xfffffffffffffu64)) & 0xfffffffffffffu64) | 0x10000000000000u64 == mantissa) by (bit_vector)
            requires
                0x10000000000000u64 <= mantissa < 0x20000000000000u64,
                0 < biased <= 2047,
                sign_bit == 0x8000000000000000u64 || sign_bit == 0u64;
    }
    assert(sign_bit >> 63u64 == (if sign < 0 { 1u64 } else { 0u64 })) by (bit_vector)
        requires sign_bit == (if sign < 0 { 0x8000000000000000u64 } else { 0u64 });
}

/// Custom floating-point number representation using mantissa, exponent,
/// and sign.
///
/// The components are always those of some binary64 number.
#[derive(Debug, Clone, Copy, Eq, PartialOrd, Ord, Hash)]
pub struct Float((Mantissa, Exponent, Sign));

impl Float {
    #[verifier::type_invariant]
    spec fn well_formed(self) -> bool {
        canonical_components(self.0.0.0, self.0.1.0, self.0.2.0)
    }

    /// The bits of the binary64 number this float stands for.
    pub closed spec fn bits(self) -> u64 {
        components_bits(self.0.0.0, self.0.1.0, self.0.2.0)
    }

    /// The mantissa of this float.
    pub closed spec fn spec_mantissa(self) -> u64 {
        self.0.0.0
    }

    /// The exponent of this float.
    pub closed spec fn spec_exponent(self) -> i16 {
        self.0.1.0
    }

    /// The sign of this float.
    pub closed spec fn spec_sign(self) -> i8 {
        self.0.2.0
    }

    /// The float whose bits are `bits`, as a spec value.
    pub closed spec fn spec_from_bits(bits: u64) -> Float {
        Float((Mantissa(bits_mantissa(bits)), Exponent(bits_exponent(bits)), Sign(bits_sign(bits))))
    }

    /// The float of given bits gives those bits back.
    pub proof fn lemma_spec_from_bits(bits: u64)
        ensures
            Float::spec_from_bits(bits).bits() == bits,
    {
        lemma_encode_decode(bits);
    }

    /// The float that the bits of a binary64 number stand for.
    pub fn from_bits(bits: u64) -> (res: Float)
        ensures
            res == Float::spec_from_bits(bits),
            res.bits() == bits,
            res.spec_mantissa() == bits_mantissa(bits),
            res.spec_exponent() == bits_exponent(bits),
            res.spec_sign() == bits_sign(bits),
    {
        proof {
            lemma_encode_decode(bits);
        }
        Float(decode(bits))
    }

    /// The bits of the binary64 number this float stands for.
    pub fn to_bits(&self) -> (res: u64)
        ensures
            res == self.bits(),
            Float::spec_from_bits(res) == *self,
    {
        proof {
            use_type_invariant(self);
            lemma_decode_encode(self.0.0.0, self.0.1.0, self.0.2.0);
        }
        encode(self.0.0, self.0.1, self.0.2)
    }

    /// The binary64 number nearest to `i`.
    pub fn from_integer(i: i64) -> (res: Float)
        ensures
            res.bits() == ieee_from_int(i),
            res == Float::spec_from_bits(ieee_from_int(i)),
    {
        Float::from_bits(double_from_int(i))
    }

    pub fn mantissa(&self) -> (res: Mantissa)
        ensures
            res@ == self.spec_mantissa(),
    {
        self.0.0
    }

    pub fn exponent(&self) -> (res: Exponent)
        ensures
            res@ == self.spec_exponent(),
    {
        self.0.1
    }

    pub fn sign(&self) -> (res: Sign)
        ensures
            res@ == self.spec_sign(),
    {
        self.0.2
    }
}

/// Whether two binary64 numbers given by their bits compare equal.
pub fn bits_eq(a: u64, b: u64) -> (res: bool)
    ensures
        res == bits_equal(a, b),
{
    let a_nan = (a >> 52) & 0x7ff == 0x7ff && a & FRACTION_MASK != 0;
    let b_nan = (b >> 52) & 0x7ff == 0x7ff && b & FRACTION_MASK != 0;
    if a_nan || b_nan {
        false
    } else if a & 0x7fffffffffffffff == 0 && b & 0x7fffffffffffffff == 0 {
        true
    } else {
        a == b
    }
}

impl PartialEq for Float {
    fn eq(&self, other: &Self) -> (res: bool) {
        bits_eq(self.to_bits(), other.to_bits())
    }
}

impl vstd::std_specs::cmp::PartialEqSpecImpl for Float {
    open spec fn obeys_eq_spec() -> bool {
        true
    }

    open spec fn eq_spec(&self, other: &Self) -> bool {
        bits_equal(self.bits(), other.bits())
    }
}

impl core::ops::Add for Float {
    type Output = Float;

    fn add(self, rhs: Float) -> (res: Float) {
        Float::from_bits(double_add(self.to_bits(), rhs.to_bits()))
    }
}

impl vstd::std_specs::ops::AddSpecImpl for Float {
    open spec fn obeys_add_spec() -> bool {
        true
    }

    open spec fn add_req(self, rhs: Float) -> bool {
        true
    }

    open spec fn add_spec(self, rhs: Float) -> Float {
        Float::spec_from_bits(ieee_sum(self.bits(), rhs.bits()))
    }
}

impl core::ops::Sub for Float {
    type Output = Float;

    fn sub(self, rhs: Float) -> (res: Float) {
        Float::from_bits(double_sub(self.to_bits(), rhs.to_bits()))
    }
}

impl vstd::std_specs::ops::SubSpecImpl for Float {
    open spec fn obeys_sub_spec() -> bool {
        true
    }

    open spec fn sub_req(self, rhs: Float) -> bool {
        true
    }

    open spec fn sub_spec(self, rhs: Float) -> Float {
        Float::spec_from_bits(ieee_difference(self.bits(), rhs.bits()))
    }
}

impl core::ops::Mul for Float {
    type Output = Float;

    fn mul(self, rhs: Float) -> (res: Float) {
        Float::from_bits(double_mul(self.to_bits(), rhs.to_bits()))
    }
}

impl vstd::std_specs::ops::MulSpecImpl for Float {
    open spec fn obeys_mul_spec() -> bool {
        true
    }

    open spec fn mul_req(self, rhs: Float) -> bool {
        true
    }

    open spec fn mul_spec(self, rhs: Float) -> Float {
        Float::spec_from_bits(ieee_product(self.bits(), rhs.bits()))
    }
}

impl core::ops::Div for Float {
    type Output = Float;

    fn div(self, rhs: Float) -> (res: Float) {
        Float::from_bits(double_div(self.to_bits(), rhs.to_bits()))
    }
}

impl vstd::std_specs::ops::DivSpecImpl for Float {
    open spec fn obeys_div_spec() -> bool {
        true
    }

    open spec fn div_req(self, rhs: Float) -> bool {
        true
    }

    open spec fn div_spec(self, rhs: Float) -> Float {
        Float::spec_from_bits(ieee_quotient(self.bits(), rhs.bits()))
    }
}


/// The bits of the sum of the first `n` floats of `xs`, added one by one
/// from the left to positive zero.
pub open spec fn sum_bits(xs: Seq<Float>, n: int) -> u64
    decreases n,
{
    if n <= 0 || n > xs.len() {
        0
    } else {
        ieee_sum(sum_bits(xs, n - 1), xs[n - 1].bits())
    }
}

/// The bits of the product of the first `n` floats of `xs`, multiplied one
/// by one from the left to one.
pub open spec fn product_bits(xs: Seq<Float>, n: int) -> u64
    decreases n,
{
    if n <= 0 || n > xs.len() {
        0x3FF0000000000000u64
    } else {
        ieee_product(product_bits(xs, n - 1), xs[n - 1].bits())
    }
}

impl Float {
    /// The sum of `xs`, added one by one from the left to positive zero.
    pub fn sum(xs: &Vec<Float>) -> (res: Float)
        ensures
            res.bits() == sum_bits(xs@, xs@.len() as int),
    {
        let mut acc: u64 = 0;
        let mut i: usize = 0;
        while i < xs.len()
            invariant
                0 <= i <= xs@.len(),
                acc == sum_bits(xs@, i as int),
            decreases xs@.len() - i,
        {
            acc = double_add(acc, xs[i].to_bits());
            i += 1;
        }
        Float::from_bits(acc)
    }

    /// The product of `xs`, multiplied one by one from the left to one.
    pub fn product(xs: &Vec<Float>) -> (res: Float)
        ensures
            res.bits() == product_bits(xs@, xs@.len() as int),
    {
        let mut acc: u64 = 0x3FF0000000000000u64;
        let mut i: usize = 0;
        while i < xs.len()
            invariant
                0 <= i <= xs@.len(),
                acc == product_bits(xs@, i as int),
            decreases xs@.len() - i,
        {
            acc = double_mul(acc, xs[i].to_bits());
            i += 1;
        }
        Float::from_bits(acc)
    }
}

} // verus!
