//! Elements of the BN254 scalar field and their decimal encoding.

use vstd::prelude::*;

use crate::error::ProverError;

verus! {

/// The order of the BN254 scalar field. Every field element is kept as a
/// canonical residue below this prime.
pub open spec fn fr_order() -> nat {
    21888242871839275222246405745257275088548364400416034343698204186575808495617nat
}

/// An element of the BN254 scalar field. The value itself lives in the
/// arkworks field implementation; the library reasons about it only
/// through its canonical integer value `fr_nat`.
#[verifier::external_body]
pub struct FieldElement {
    pub(crate) inner: ark_bn254::Fr,
}

/// The canonical integer value of a field element; always below
/// `fr_order()`.
pub uninterp spec fn fr_nat(f: FieldElement) -> nat;

impl Clone for FieldElement {
    /// Relies on `Copy` for `ark_ff::Fp`: the copy is the same element.
    #[verifier::external_body]
    fn clone(&self) -> (r: Self)
        ensures
            fr_nat(r) == fr_nat(*self),
    {
        FieldElement { inner: self.inner }
    }
}

/// True when `c` is one of the ten decimal digit characters.
pub open spec fn is_dec_digit(c: char) -> bool {
    '0' <= c && c <= '9'
}

/// True when every character of `s` is a decimal digit.
pub open spec fn all_dec_digits(s: Seq<char>) -> bool {
    forall|i: int| 0 <= i < s.len() ==> is_dec_digit(#[trigger] s[i])
}

/// The numeric value of one decimal digit character.
pub open spec fn digit_val(c: char) -> nat {
    (c as int - '0' as int) as nat
}

/// The digit character for a value below ten.
pub open spec fn digit_char(d: nat) -> char {
    if d == 0 {
        '0'
    } else if d == 1 {
        '1'
    } else if d == 2 {
        '2'
    } else if d == 3 {
        '3'
    } else if d == 4 {
        '4'
    } else if d == 5 {
        '5'
    } else if d == 6 {
        '6'
    } else if d == 7 {
        '7'
    } else if d == 8 {
        '8'
    } else {
        '9'
    }
}

/// The number that a string of decimal digits denotes.
pub open spec fn dec_value(s: Seq<char>) -> nat
    decreases s.len(),
{
    if s.len() == 0 {
        0
    } else {
        dec_value(s.drop_last()) * 10 + digit_val(s.last())
    }
}

/// The canonical decimal writing of a number: no sign, no leading zeros,
/// a single `'0'` for zero.
pub open spec fn dec_str_of(n: nat) -> Seq<char>
    decreases n,
{
    if n < 10 {
        seq![digit_char(n)]
    } else {
        dec_str_of(n / 10).push(digit_char(n % 10))
    }
}

/// The canonical decimal writing denotes the number it was made from.
pub proof fn lemma_dec_str_of_value(n: nat)
    ensures
        dec_value(dec_str_of(n)) == n,
        dec_str_of(n).len() >= 1,
        all_dec_digits(dec_str_of(n)),
    decreases n,
{
    if n < 10 {
        let s = seq![digit_char(n)];
        assert(s.len() == 1);
        assert(s.last() == digit_char(n));
        assert(s.drop_last() =~= Seq::<char>::empty());
        assert(dec_value(s.drop_last()) == 0);
        assert(dec_value(s) == digit_val(digit_char(n)));
    } else {
        lemma_dec_str_of_value(n / 10);
        let s = dec_str_of(n / 10).push(digit_char(n % 10));
        assert(s.drop_last() =~= dec_str_of(n / 10));
        assert(dec_value(s) == dec_value(dec_str_of(n / 10)) * 10 + digit_val(digit_char(n % 10)));
        assert(n == (n / 10) * 10 + n % 10) by {
            vstd::arithmetic::div_mod::lemma_fundamental_div_mod(n as int, 10);
        }
        assert(forall|i: int|
            0 <= i < s.len() ==> is_dec_digit(#[trigger] s[i]));
    }
}

/// Relies on `ark_ff::Fp::from(u64)`: the integer becomes the canonical
/// residue, which below the field order is the integer itself.
#[verifier::external_body]
pub fn fe_from_u64(v: u64) -> (r: FieldElement)
    ensures
        fr_nat(r) == v as nat,
        fr_nat(r) < fr_order(),
{
    FieldElement { inner: ark_bn254::Fr::from(v) }
}

/// Relies on field addition for `ark_ff::Fp`: the canonical value of the
/// sum is the sum of the values, modulo the field order.
#[verifier::external_body]
pub fn fe_add(a: &FieldElement, b: &FieldElement) -> (r: FieldElement)
    ensures
        fr_nat(r) == (fr_nat(*a) + fr_nat(*b)) % fr_order(),
        fr_nat(r) < fr_order(),
{
    FieldElement { inner: a.inner + b.inner }
}

/// Relies on field subtraction for `ark_ff::Fp`: the canonical value of
/// `a - b` is `a + order - b`, reduced modulo the field order.
#[verifier::external_body]
pub fn fe_sub(a: &FieldElement, b: &FieldElement) -> (r: FieldElement)
    ensures
        fr_nat(r) as int == (fr_nat(*a) + fr_order() - fr_nat(*b)) % (fr_order() as int),
        fr_nat(r) < fr_order(),
{
    FieldElement { inner: a.inner - b.inner }
}

/// Relies on field multiplication for `ark_ff::Fp`: the canonical value of
/// the product is the product of the values, modulo the field order.
#[verifier::external_body]
pub fn fe_mul(a: &FieldElement, b: &FieldElement) -> (r: FieldElement)
    ensures
        fr_nat(r) == (fr_nat(*a) * fr_nat(*b)) % fr_order(),
        fr_nat(r) < fr_order(),
{
    FieldElement { inner: a.inner * b.inner }
}

/// Relies on field negation for `ark_ff::Fp`: the canonical value of the
/// negation is the order minus the value, reduced modulo the field order.
#[verifier::external_body]
pub fn fe_neg(a: &FieldElement) -> (r: FieldElement)
    ensures
        fr_nat(r) as int == (fr_order() - fr_nat(*a)) % (fr_order() as int),
        fr_nat(r) < fr_order(),
{
    FieldElement { inner: -a.inner }
}

/// Relies on `ark_ff::PrimeField::into_bigint`: the first limb of the
/// canonical little-endian representation is the value modulo `2^64`.
#[verifier::external_body]
pub fn fe_low_u64(f: &FieldElement) -> (r: u64)
    ensures
        r as nat == fr_nat(*f) % 0x10000000000000000nat,
{
    ark_ff::PrimeField::into_bigint(f.inner).0[0]
}

/// Relies on `PartialEq` for `ark_ff::Fp`: elements are kept in a unique
/// canonical form, so equality of representations is equality of values.
#[verifier::external_body]
pub fn fe_eq(a: &FieldElement, b: &FieldElement) -> (r: bool)
    ensures
        r <==> fr_nat(*a) == fr_nat(*b),
{
    a.inner == b.inner
}

/// Relies on `ark_ff::PrimeField::into_bigint` and the decimal display of
/// `ark_ff::BigInt` (which prints through `num_bigint::BigUint`): the
/// result is the canonical value written in decimal, without leading
/// zeros.
#[verifier::external_body]
pub fn fr_to_string(f: &FieldElement) -> (r: String)
    ensures
        r@ == dec_str_of(fr_nat(*f)),
{
    ark_ff::PrimeField::into_bigint(f.inner).to_string()
}

/// Relies on `num_bigint::BigUint::parse_bytes` (base ten, total on digit
/// strings) and `ark_ff::PrimeField::from_be_bytes_mod_order`: the digits
/// are read as a number and reduced modulo the field order.
#[verifier::external_body]
fn fe_from_digits(s: &str) -> (r: FieldElement)
    requires
        s@.len() > 0,
        all_dec_digits(s@),
    ensures
        fr_nat(r) == dec_value(s@) % fr_order(),
        fr_nat(r) < fr_order(),
{
    let n = num_bigint::BigUint::parse_bytes(s.as_bytes(), 10).unwrap();
    FieldElement { inner: ark_ff::PrimeField::from_be_bytes_mod_order(&n.to_bytes_be()) }
}

/// True when `s` is not empty and every character is a decimal digit.
pub fn is_decimal_string(s: &str) -> (r: bool)
    ensures
        r <==> (s@.len() > 0 && all_dec_digits(s@)),
{
    let len = s.unicode_len();
    if len == 0 {
        return false;
    }
    let mut i: usize = 0;
    while i < len
        invariant
            0 <= i <= len,
            len == s@.len(),
            forall|j: int| 0 <= j < i ==> is_dec_digit(#[trigger] s@[j]),
        decreases len - i,
    {
        let c = s.get_char(i);
        if c < '0' || c > '9' {
            return false;
        }
        i = i + 1;
    }
    true
}

/// Read a decimal string as a field element, reducing modulo the field
/// order; anything but a plain string of digits is rejected.
pub fn string_to_fr(s: &str) -> (r: Result<FieldElement, ProverError>)
    ensures
        r is Ok <==> (s@.len() > 0 && all_dec_digits(s@)),
        r is Ok ==> fr_nat(r->Ok_0) == dec_value(s@) % fr_order(),
        r is Ok ==> fr_nat(r->Ok_0) < fr_order(),
        r is Err ==> r->Err_0 is ArkError,
{
    if is_decimal_string(s) {
        Ok(fe_from_digits(s))
    } else {
        Err(ProverError::ArkError(String::from_str("invalid decimal number")))
    }
}

/// The decimal writing of a field element parses back to the same value:
/// the decimal codec on field elements is an exact round trip.
pub proof fn lemma_fr_decimal_round_trip(f: FieldElement)
    requires
        fr_nat(f) < fr_order(),
    ensures
        dec_str_of(fr_nat(f)).len() > 0,
        all_dec_digits(dec_str_of(fr_nat(f))),
        dec_value(dec_str_of(fr_nat(f))) % fr_order() == fr_nat(f),
{
    lemma_dec_str_of_value(fr_nat(f));
    vstd::arithmetic::div_mod::lemma_small_mod(fr_nat(f), fr_order());
}

/// The digit character of a value below ten.
fn char_of_digit(d: u64) -> (c: char)
    requires
        d < 10,
    ensures
        c == digit_char(d as nat),
{
    if d == 0 {
        '0'
    } else if d == 1 {
        '1'
    } else if d == 2 {
        '2'
    } else if d == 3 {
        '3'
    } else if d == 4 {
        '4'
    } else if d == 5 {
        '5'
    } else if d == 6 {
        '6'
    } else if d == 7 {
        '7'
    } else if d == 8 {
        '8'
    } else {
        '9'
    }
}

/// Relies on `String::push`: appends exactly one character.
#[verifier::external_body]
pub(crate) fn push_char(s: &mut String, c: char)
    ensures
        final(s)@ == old(s)@.push(c),
{
    s.push(c);
}

/// Relies on `String::new`: the new string is empty.
#[verifier::external_body]
pub(crate) fn string_new() -> (r: String)
    ensures
        r@ == Seq::<char>::empty(),
{
    String::new()
}

/// Whether two strings hold the same characters.
pub fn str_eq(a: &str, b: &str) -> (r: bool)
    ensures
        r <==> a@ == b@,
{
    let alen = a.unicode_len();
    let blen = b.unicode_len();
    if alen != blen {
        return false;
    }
    let mut i: usize = 0;
    while i < alen
        invariant
            alen == a@.len(),
            alen == b@.len(),
            0 <= i <= alen,
            forall|j: int| 0 <= j < i ==> a@[j] == b@[j],
        decreases alen - i,
    {
        if a.get_char(i) != b.get_char(i) {
            return false;
        }
        i = i + 1;
    }
    proof {
        assert(a@ =~= b@);
    }
    true
}

/// Write an integer in decimal, as `dec_str_of` does.
pub fn u64_to_string(v: u64) -> (r: String)
    ensures
        r@ == dec_str_of(v as nat),
    decreases v,
{
    if v < 10 {
        let mut s = string_new();
        push_char(&mut s, char_of_digit(v));
        assert(s@ =~= seq![digit_char(v as nat)]);
        s
    } else {
        let mut s = u64_to_string(v / 10);
        push_char(&mut s, char_of_digit(v % 10));
        s
    }
}

} // verus!
