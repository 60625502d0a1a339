//! Canonical decimal codec and field elements.
//!
//! A field element is a non-negative integer canonically reduced below the
//! BN254 scalar-field modulus. It is constructed only through a validated
//! parse of a canonical decimal string: non-digit text is a `ParseError`,
//! and out-of-range or non-canonical encodings (a leading zero, a value at
//! or above the modulus) are rejected rather than silently reduced.

use vstd::prelude::*;
use vstd::string::*;

use crate::error::VerifyError;
use crate::u252::{fr_modulus, value_bound, U252};

verus! {

/// Whether a character is a decimal digit.
pub open spec fn is_digit(c: char) -> bool {
    '0' <= c && c <= '9'
}

/// The numeric value of a decimal digit.
pub open spec fn digit_val(c: char) -> nat {
    (c as u8 - 48) as nat
}

/// Whether every character of the sequence is a decimal digit.
pub open spec fn all_digits(s: Seq<char>) -> bool {
    forall|i: int| 0 <= i < s.len() ==> is_digit(#[trigger] s[i])
}

/// A canonical decimal string: non-empty, digits only, and no leading zero.
pub open spec fn canonical_decimal(s: Seq<char>) -> bool {
    &&& s.len() >= 1
    &&& all_digits(s)
    &&& (s.len() > 1 ==> s[0] != '0')
}

/// The integer a digit string denotes, most significant digit first.
pub open spec fn decimal_value(s: Seq<char>) -> nat
    decreases s.len(),
{
    if s.len() == 0 {
        0
    } else {
        decimal_value(s.drop_last()) * 10 + digit_val(s.last())
    }
}

/// The digit character for a value below ten.
pub open spec fn digit_char(d: nat) -> char
    recommends
        d < 10,
{
    if d == 0 {
        '0'
    } else if d == 1 {
        '1'
    } else if d == 2 {
        '2'
    } else if d == 3 {
        '3'
    } else if d == 4 {
        '4'
    } else if d == 5 {
        '5'
    } else if d == 6 {
        '6'
    } else if d == 7 {
        '7'
    } else if d == 8 {
        '8'
    } else {
        '9'
    }
}

/// The canonical decimal string of an integer.
pub open spec fn decimal_of(n: nat) -> Seq<char>
    decreases n,
{
    if n < 10 {
        seq![digit_char(n)]
    } else {
        decimal_of(n / 10).push(digit_char(n % 10))
    }
}

/// A digit character round-trips through its numeric value.
proof fn lemma_digit_char_of_val(c: char)
    requires
        is_digit(c),
    ensures
        digit_val(c) < 10,
        digit_char(digit_val(c)) == c,
{
}

/// The canonical decimal string of `n` is canonical and denotes `n`.
pub proof fn lemma_decimal_of_canonical(n: nat)
    ensures
        canonical_decimal(decimal_of(n)),
        decimal_value(decimal_of(n)) == n,
        n >= 1 ==> decimal_of(n)[0] != '0',
    decreases n,
{
    if n < 10 {
        let s = decimal_of(n);
        assert(s.drop_last() =~= Seq::<char>::empty());
        assert(decimal_value(Seq::<char>::empty()) == 0);
        assert(decimal_value(s) == digit_val(digit_char(n)));
    } else {
        lemma_decimal_of_canonical(n / 10);
        let p = decimal_of(n / 10);
        let s = decimal_of(n);
        assert(s.drop_last() =~= p);
        assert(n / 10 >= 1) by (nonlinear_arith)
            requires
                n >= 10,
        ;
        assert(decimal_value(s) == (n / 10) * 10 + n % 10);
        assert((n / 10) * 10 + n % 10 == n) by {
            vstd::arithmetic::div_mod::lemma_fundamental_div_mod(n as int, 10);
        }
    }
}

/// A digit string that starts with a non-zero digit denotes a positive value.
proof fn lemma_value_positive(s: Seq<char>)
    requires
        all_digits(s),
        s.len() >= 1,
        s[0] != '0',
    ensures
        decimal_value(s) >= 1,
    decreases s.len(),
{
    if s.len() == 1 {
        assert(digit_val(s[0]) >= 1);
    } else {
        let p = s.drop_last();
        lemma_value_positive(p);
    }
}

/// Canonical decimal strings are unique: re-serializing the denoted value
/// gives back the same string. This is the round-trip law of the codec.
pub proof fn lemma_decimal_unique(s: Seq<char>)
    requires
        canonical_decimal(s),
    ensures
        decimal_of(decimal_value(s)) == s,
    decreases s.len(),
{
    let v = decimal_value(s);
    if s.len() == 1 {
        lemma_digit_char_of_val(s[0]);
        assert(s.drop_last() =~= Seq::<char>::empty());
        assert(decimal_value(Seq::<char>::empty()) == 0);
        assert(v == digit_val(s[0]));
        assert(decimal_of(v) =~= s);
    } else {
        let p = s.drop_last();
        let d = digit_val(s.last());
        lemma_value_positive(p);
        lemma_decimal_unique(p);
        let pv = decimal_value(p);
        assert(v == pv * 10 + d);
        assert(v >= 10);
        vstd::arithmetic::div_mod::lemma_fundamental_div_mod_converse(
            v as int,
            10,
            pv as int,
            d as int,
        );
        lemma_digit_char_of_val(s.last());
        assert(decimal_of(v) == p.push(s.last()));
        assert(p.push(s.last()) =~= s);
    }
}

/// Growing a digit-string prefix never shrinks the denoted value.
proof fn lemma_value_prefix_le(s: Seq<char>, i: int, j: int)
    requires
        0 <= i <= j <= s.len(),
    ensures
        decimal_value(s.subrange(0, i)) <= decimal_value(s.subrange(0, j)),
    decreases j - i,
{
    if i < j {
        lemma_value_prefix_le(s, i, j - 1);
        assert(s.subrange(0, j).drop_last() =~= s.subrange(0, j - 1));
        let pv = decimal_value(s.subrange(0, j - 1));
        assert(decimal_value(s.subrange(0, j)) == pv * 10 + digit_val(s[j - 1]));
        assert(pv * 10 >= pv) by (nonlinear_arith);
    }
}

/// Parse a canonical decimal string into a 256-bit integer.
pub fn parse_decimal(s: &str) -> (r: Result<U252, VerifyError>)
    ensures
        !canonical_decimal(s@) ==> r == Err::<U252, VerifyError>(VerifyError::ParseError),
        canonical_decimal(s@) && decimal_value(s@) >= value_bound() ==> r == Err::<
            U252,
            VerifyError,
        >(VerifyError::RangeError),
        canonical_decimal(s@) && decimal_value(s@) < value_bound() ==> (r matches Ok(u)
            && u.value() == decimal_value(s@)),
{
    if !s.is_ascii() {
        proof {
            let i = choose|i: int| 0 <= i < s@.len() && !('\0' <= #[trigger] s@[i] <= '\u{7f}');
            assert(!is_digit(s@[i]));
        }
        return Err(VerifyError::ParseError);
    }
    let n = s.unicode_len();
    if n == 0 {
        return Err(VerifyError::ParseError);
    }
    let mut i: usize = 0;
    while i < n
        invariant
            n == s@.len(),
            s.is_ascii(),
            0 <= i <= n,
            forall|k: int| 0 <= k < i ==> is_digit(#[trigger] s@[k]),
        decreases n - i,
    {
        let b = s.get_ascii(i);
        if b < 48 || b > 57 {
            assert(!is_digit(s@[i as int]));
            return Err(VerifyError::ParseError);
        }
        assert(is_digit(s@[i as int]));
        i += 1;
    }
    if n > 1 && s.get_ascii(0) == 48 {
        assert(s@[0] == '0');
        return Err(VerifyError::ParseError);
    }
    assert(canonical_decimal(s@));
    let mut acc = U252::zero();
    let mut i: usize = 0;
    proof {
        assert(s@.subrange(0, 0) =~= Seq::<char>::empty());
    }
    while i < n
        invariant
            n == s@.len(),
            s.is_ascii(),
            canonical_decimal(s@),
            0 <= i <= n,
            acc.value() == decimal_value(s@.subrange(0, i as int)),
        decreases n - i,
    {
        let b = s.get_ascii(i);
        assert(is_digit(s@[i as int]));
        let d = b - 48;
        match acc.mul10_add(d) {
            Some(a) => {
                proof {
                    assert(s@.subrange(0, i + 1).drop_last() =~= s@.subrange(0, i as int));
                    assert(s@.subrange(0, i + 1).last() == s@[i as int]);
                }
                acc = a;
            },
            None => {
                proof {
                    assert(s@.subrange(0, i + 1).drop_last() =~= s@.subrange(0, i as int));
                    assert(decimal_value(s@.subrange(0, i + 1)) >= value_bound());
                    lemma_value_prefix_le(s@, i + 1, n as int);
                    assert(s@.subrange(0, n as int) =~= s@);
                }
                return Err(VerifyError::RangeError);
            },
        }
        i += 1;
    }
    proof {
        assert(s@.subrange(0, n as int) =~= s@);
    }
    Ok(acc)
}

/// The string for one digit value.
fn digit_str(d: u8) -> (r: &'static str)
    requires
        d < 10,
    ensures
        r@ =~= seq![digit_char(d as nat)],
{
    proof {
        reveal_strlit("0");
        reveal_strlit("1");
        reveal_strlit("2");
        reveal_strlit("3");
        reveal_strlit("4");
        reveal_strlit("5");
        reveal_strlit("6");
        reveal_strlit("7");
        reveal_strlit("8");
        reveal_strlit("9");
    }
    match d {
        0 => "0",
        1 => "1",
        2 => "2",
        3 => "3",
        4 => "4",
        5 => "5",
        6 => "6",
        7 => "7",
        8 => "8",
        _ => "9",
    }
}

/// Serialize a value as its canonical decimal string.
fn to_decimal_rec(u: U252) -> (r: String)
    ensures
        r@ == decimal_of(u.value()),
    decreases u.value(),
{
    let (q, d) = u.div_rem_10();
    if q.is_zero() {
        assert(u.value() < 10) by {
            vstd::arithmetic::div_mod::lemma_fundamental_div_mod(u.value() as int, 10);
        }
        String::from_str(digit_str(d))
    } else {
        assert(u.value() / 10 < u.value()) by (nonlinear_arith)
            requires
                u.value() / 10 >= 1,
        ;
        let mut out = to_decimal_rec(q);
        out.append(digit_str(d));
        proof {
            assert(decimal_of(q.value()).push(digit_char(d as nat)) =~= decimal_of(q.value())
                + seq![digit_char(d as nat)]);
            assert(u.value() >= 10) by {
                vstd::arithmetic::div_mod::lemma_fundamental_div_mod(u.value() as int, 10);
            }
        }
        out
    }
}

impl U252 {
    /// Parse a canonical decimal string.
    pub fn try_from(value: &str) -> (r: Result<U252, VerifyError>)
        ensures
            !canonical_decimal(value@) ==> r == Err::<U252, VerifyError>(VerifyError::ParseError),
            canonical_decimal(value@) && decimal_value(value@) >= value_bound() ==> r == Err::<
                U252,
                VerifyError,
            >(VerifyError::RangeError),
            canonical_decimal(value@) && decimal_value(value@) < value_bound() ==> (r matches Ok(
            u) && u.value() == decimal_value(value@)),
    {
        parse_decimal(value)
    }

    /// The canonical decimal string of the value.
    pub fn to_decimal(&self) -> (r: String)
        ensures
            r@ == decimal_of(self.value()),
    {
        to_decimal_rec(*self)
    }
}

/// An element of the BN254 scalar field, canonically reduced: the stored
/// value is always below the modulus.
#[derive(Clone, Copy, Debug, PartialEq, Eq, Structural)]
pub struct FieldElement {
    pub u: U252,
}

impl FieldElement {
    /// The mathematical value of the element.
    pub open spec fn value(self) -> nat {
        self.u.value()
    }

    /// The canonical-reduction invariant.
    pub open spec fn wf(self) -> bool {
        self.value() < fr_modulus()
    }

    /// Parse a canonical decimal string into a scalar-field element.
    ///
    /// Fails with `ParseError` when the text is not a canonical base-10
    /// non-negative integer, and with `RangeError` when the value is at or
    /// above the scalar-field modulus.
    pub fn parse(s: &str) -> (r: Result<FieldElement, VerifyError>)
        ensures
            !canonical_decimal(s@) ==> r == Err::<FieldElement, VerifyError>(
                VerifyError::ParseError,
            ),
            canonical_decimal(s@) && decimal_value(s@) >= fr_modulus() ==> r == Err::<
                FieldElement,
                VerifyError,
            >(VerifyError::RangeError),
            canonical_decimal(s@) && decimal_value(s@) < fr_modulus() ==> (r matches Ok(fe)
                && fe.value() == decimal_value(s@) && fe.wf()),
    {
        match parse_decimal(s) {
            Err(e) => Err(e),
            Ok(u) => {
                if u.lt(&U252::fr_modulus_val()) {
                    Ok(FieldElement { u })
                } else {
                    Err(VerifyError::RangeError)
                }
            },
        }
    }

    /// Serialize the element as its canonical decimal string: the exact
    /// inverse of `parse`.
    pub fn serialize(&self) -> (r: String)
        ensures
            r@ == decimal_of(self.value()),
    {
        self.u.to_decimal()
    }
}

/// Round-trip law: for every canonical decimal string whose value lies
/// below the scalar-field modulus, parsing and then serializing gives back
/// exactly the same string.
pub proof fn lemma_parse_serialize_round_trip(s: Seq<char>)
    requires
        canonical_decimal(s),
        decimal_value(s) < fr_modulus(),
    ensures
        decimal_of(decimal_value(s)) == s,
{
    lemma_decimal_unique(s);
}

/// Serialization always yields a canonical decimal string that parses back
/// to the same value.
pub proof fn lemma_serialize_parse_round_trip(n: nat)
    requires
        n < fr_modulus(),
    ensures
        canonical_decimal(decimal_of(n)),
        decimal_value(decimal_of(n)) == n,
{
    lemma_decimal_of_canonical(n);
}

} // verus!
