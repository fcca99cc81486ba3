//! Runtime values.
//!
//! A number is an IEEE 754 binary64 value, held by its 64-bit pattern. Order,
//! equality and negation of numbers are decided on the pattern; the four
//! arithmetic operations are not computed here.

use vstd::prelude::*;
use vstd::utf8::{encode_utf8, encode_utf8_decode_utf8};

verus! {

/// The sign bit of a binary64 pattern.
pub const SIGN_BIT: u64 = 0x8000_0000_0000_0000;

/// The exponent and fraction bits of a binary64 pattern.
pub const MAGNITUDE_BITS: u64 = 0x7FFF_FFFF_FFFF_FFFF;

/// The magnitude of an infinity: all exponent bits set, fraction zero.
pub const INFINITY_BITS: u64 = 0x7FF0_0000_0000_0000;

/// A value of the language.
#[derive(Debug, PartialEq, Eq)]
pub enum Value {
    /// A binary64 number, as its bit pattern.
    Number(u64),
    Bool(bool),
    String(String),
    Nil,
}

/// The mathematical model of a `Value`: text is a sequence of characters.
pub ghost enum ValueView {
    Number(u64),
    Bool(bool),
    String(Seq<char>),
    Nil,
}

impl View for Value {
    type V = ValueView;

    open spec fn view(&self) -> ValueView {
        match self {
            Value::Number(bits) => ValueView::Number(*bits),
            Value::Bool(b) => ValueView::Bool(*b),
            Value::String(s) => ValueView::String(s@),
            Value::Nil => ValueView::Nil,
        }
    }
}

/// The text of a value as `print` writes it. The text of a number is its
/// decimal form, which is not computed here.
pub open spec fn value_text(value: ValueView) -> Option<Seq<char>> {
    match value {
        ValueView::Number(_) => None,
        ValueView::Bool(b) => Some(
            if b {
                "true"@
            } else {
                "false"@
            },
        ),
        ValueView::String(s) => Some(s),
        ValueView::Nil => Some("nil"@),
    }
}

/// The models of a sequence of values, in order.
pub open spec fn value_views(values: Seq<Value>) -> Seq<ValueView> {
    values.map_values(|v: Value| v@)
}

/// A pattern whose exponent bits are all set and whose fraction is not zero
/// stands for no number.
pub open spec fn is_nan(bits: u64) -> bool {
    (bits & MAGNITUDE_BITS) > INFINITY_BITS
}

/// The place of a number on the number line: its magnitude bits, counted
/// downwards when the sign bit is set. Both zeros have place 0.
pub open spec fn number_place(bits: u64) -> int {
    if bits & SIGN_BIT != 0 {
        -((bits & MAGNITUDE_BITS) as int)
    } else {
        (bits & MAGNITUDE_BITS) as int
    }
}

/// Numeric `<`: false when either side is a NaN.
pub open spec fn number_less(left: u64, right: u64) -> bool {
    !is_nan(left) && !is_nan(right) && number_place(left) < number_place(right)
}

/// Numeric `==`: false when either side is a NaN, true for the two zeros.
pub open spec fn number_equal(left: u64, right: u64) -> bool {
    !is_nan(left) && !is_nan(right) && number_place(left) == number_place(right)
}

/// Numeric negation flips the sign bit and nothing else.
pub open spec fn number_negated(bits: u64) -> u64 {
    bits ^ SIGN_BIT
}

/// Lexicographic `<` on byte strings.
pub open spec fn bytes_less(left: Seq<u8>, right: Seq<u8>) -> bool
    decreases left.len(),
{
    if right.len() == 0 {
        false
    } else if left.len() == 0 {
        true
    } else if left[0] != right[0] {
        left[0] < right[0]
    } else {
        bytes_less(left.drop_first(), right.drop_first())
    }
}

/// Text is ordered by its UTF-8 encoding, byte by byte.
pub open spec fn text_less(left: Seq<char>, right: Seq<char>) -> bool {
    bytes_less(encode_utf8(left), encode_utf8(right))
}

fn is_nan_bits(bits: u64) -> (r: bool)
    ensures
        r == is_nan(bits),
{
    (bits & MAGNITUDE_BITS) > INFINITY_BITS
}

fn place_of(bits: u64) -> (r: i128)
    ensures
        r == number_place(bits),
{
    let magnitude: i128 = (bits & MAGNITUDE_BITS) as i128;
    if bits & SIGN_BIT != 0 {
        -magnitude
    } else {
        magnitude
    }
}

/// Decides numeric `<` on two bit patterns.
pub fn number_lt(left: u64, right: u64) -> (r: bool)
    ensures
        r == number_less(left, right),
{
    !is_nan_bits(left) && !is_nan_bits(right) && place_of(left) < place_of(right)
}

/// Decides numeric `==` on two bit patterns.
pub fn number_eq(left: u64, right: u64) -> (r: bool)
    ensures
        r == number_equal(left, right),
{
    !is_nan_bits(left) && !is_nan_bits(right) && place_of(left) == place_of(right)
}

/// Negates a number given by its bit pattern.
pub fn number_neg(bits: u64) -> (r: u64)
    ensures
        r == number_negated(bits),
{
    bits ^ SIGN_BIT
}

/// Decides `<` on two byte strings.
fn bytes_lt(left: &[u8], right: &[u8]) -> (r: bool)
    ensures
        r == bytes_less(left@, right@),
{
    let mut i: usize = 0;
    assert(left@.skip(0) =~= left@ && right@.skip(0) =~= right@);
    while i < left.len() && i < right.len()
        invariant
            i <= left.len(),
            i <= right.len(),
            bytes_less(left@, right@) == bytes_less(left@.skip(i as int), right@.skip(i as int)),
        decreases left.len() - i,
    {
        let ghost l = left@.skip(i as int);
        let ghost r = right@.skip(i as int);
        assert(l[0] == left@[i as int]);
        assert(r[0] == right@[i as int]);
        assert(l.drop_first() =~= left@.skip(i + 1));
        assert(r.drop_first() =~= right@.skip(i + 1));
        if left[i] != right[i] {
            return left[i] < right[i];
        }
        i += 1;
    }
    assert(left@.skip(i as int).len() == left.len() - i);
    assert(right@.skip(i as int).len() == right.len() - i);
    i < right.len()
}

/// Decides `<` on two texts.
pub fn text_lt(left: &str, right: &str) -> (r: bool)
    ensures
        r == text_less(left@, right@),
{
    bytes_lt(left.as_bytes(), right.as_bytes())
}

/// Decides whether two texts are the same, by their UTF-8 encodings.
pub fn text_eq(left: &str, right: &str) -> (r: bool)
    ensures
        r == (left@ == right@),
{
    let a = left.as_bytes();
    let b = right.as_bytes();
    proof {
        encode_utf8_decode_utf8(left@);
        encode_utf8_decode_utf8(right@);
    }
    if a.len() != b.len() {
        return false;
    }
    let mut i: usize = 0;
    while i < a.len()
        invariant
            a@ == encode_utf8(left@),
            b@ == encode_utf8(right@),
            a@.len() == b@.len(),
            i <= a@.len(),
            forall|j: int| 0 <= j < i ==> a@[j] == b@[j],
        decreases a@.len() - i,
    {
        if a[i] != b[i] {
            assert(left@ == right@ ==> a@[i as int] == b@[i as int]);
            return false;
        }
        i += 1;
    }
    assert(a@ =~= b@);
    true
}

impl Value {
    /// The text of this value as `print` writes it; nothing for a number.
    pub fn text(&self) -> (r: Option<String>)
        ensures
            match r {
                Some(s) => value_text(self@) == Some(s@),
                None => value_text(self@) is None,
            },
    {
        match self {
            Value::Number(_) => None,
            Value::Bool(b) => Some(
                String::from_str(
                    if *b {
                        "true"
                    } else {
                        "false"
                    },
                ),
            ),
            Value::String(s) => Some(s.clone()),
            Value::Nil => Some(String::from_str("nil")),
        }
    }
}

impl Clone for Value {
    fn clone(&self) -> (r: Self)
        ensures
            r@ == self@,
    {
        match self {
            Value::Number(bits) => Value::Number(*bits),
            Value::Bool(b) => Value::Bool(*b),
            Value::String(s) => Value::String(s.clone()),
            Value::Nil => Value::Nil,
        }
    }
}

} // verus!
