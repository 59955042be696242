//! The scalar codec: bidirectional conversion between scalar field values and
//! their attribute/text byte representation.
//!
//! Byte-string values pass through unchanged; booleans use the canonical
//! `true`/`false` tokens; unsigned integers use the canonical decimal form.
//! Decoding is strict: anything outside those forms is a decode error,
//! reported here as `None`.

use crate::bytes::{bytes_eq, copy_bytes};
use vstd::prelude::*;

verus! {

/// The scalar classes a field can carry.
#[derive(Clone, Copy, Debug, PartialEq, Eq, Structural)]
pub enum ScalarKind {
    Bytes,
    Boolean,
    Unsigned,
}

/// An executable scalar value.
#[derive(Clone, Debug, PartialEq)]
pub enum Scalar {
    Bytes(Vec<u8>),
    Boolean(bool),
    Unsigned(u64),
}

/// The mathematical model of a scalar value.
#[verifier::ext_equal]
pub enum ScalarModel {
    Bytes(Seq<u8>),
    Boolean(bool),
    Unsigned(u64),
}

impl View for Scalar {
    type V = ScalarModel;

    open spec fn view(&self) -> ScalarModel {
        match self {
            Scalar::Bytes(b) => ScalarModel::Bytes(b@),
            Scalar::Boolean(b) => ScalarModel::Boolean(*b),
            Scalar::Unsigned(n) => ScalarModel::Unsigned(*n),
        }
    }
}

/// The class a scalar value belongs to.
pub open spec fn scalar_kind_of(s: ScalarModel) -> ScalarKind {
    match s {
        ScalarModel::Bytes(_) => ScalarKind::Bytes,
        ScalarModel::Boolean(_) => ScalarKind::Boolean,
        ScalarModel::Unsigned(_) => ScalarKind::Unsigned,
    }
}

/// The bytes of the token `true`.
pub open spec fn spec_true_bytes() -> Seq<u8> {
    seq![116u8, 114u8, 117u8, 101u8]
}

/// The bytes of the token `false`.
pub open spec fn spec_false_bytes() -> Seq<u8> {
    seq![102u8, 97u8, 108u8, 115u8, 101u8]
}

pub open spec fn is_ascii_digit(b: u8) -> bool {
    48 <= b && b <= 57
}

/// The numeric weight of one byte: its digit value, zero for a non-digit.
pub open spec fn digit_value(b: u8) -> nat {
    if is_ascii_digit(b) {
        (b - 48) as nat
    } else {
        0
    }
}

/// The canonical decimal digits of `n`, most significant first.
pub open spec fn spec_digits(n: nat) -> Seq<u8>
    decreases n,
{
    if n < 10 {
        seq![(48 + n) as u8]
    } else {
        spec_digits(n / 10).push((48 + n % 10) as u8)
    }
}

/// The number a digit string denotes.
pub open spec fn spec_digits_value(s: Seq<u8>) -> nat
    decreases s.len(),
{
    if s.len() == 0 {
        0
    } else {
        spec_digits_value(s.drop_last()) * 10 + digit_value(s.last())
    }
}

pub open spec fn all_digits(s: Seq<u8>) -> bool {
    forall|i: int| 0 <= i < s.len() ==> is_ascii_digit(#[trigger] s[i])
}

/// What the codec emits for a scalar value.
pub open spec fn spec_encode(s: ScalarModel) -> Seq<u8> {
    match s {
        ScalarModel::Bytes(b) => b,
        ScalarModel::Boolean(b) => if b {
            spec_true_bytes()
        } else {
            spec_false_bytes()
        },
        ScalarModel::Unsigned(n) => spec_digits(n as nat),
    }
}

/// What the codec accepts for each scalar class; `None` is a decode error.
pub open spec fn spec_decode(k: ScalarKind, s: Seq<u8>) -> Option<ScalarModel> {
    match k {
        ScalarKind::Bytes => Some(ScalarModel::Bytes(s)),
        ScalarKind::Boolean => if s == spec_true_bytes() {
            Some(ScalarModel::Boolean(true))
        } else if s == spec_false_bytes() {
            Some(ScalarModel::Boolean(false))
        } else {
            None
        },
        ScalarKind::Unsigned => if s.len() > 0 && all_digits(s) && spec_digits_value(s)
            <= u64::MAX {
            Some(ScalarModel::Unsigned(spec_digits_value(s) as u64))
        } else {
            None
        },
    }
}

/// The bytes of `true` as an executable value.
pub fn true_bytes() -> (r: Vec<u8>)
    ensures
        r@ == spec_true_bytes(),
{
    let mut v: Vec<u8> = Vec::new();
    v.push(116);
    v.push(114);
    v.push(117);
    v.push(101);
    proof {
        assert(v@ =~= spec_true_bytes());
    }
    v
}

/// The bytes of `false` as an executable value.
pub fn false_bytes() -> (r: Vec<u8>)
    ensures
        r@ == spec_false_bytes(),
{
    let mut v: Vec<u8> = Vec::new();
    v.push(102);
    v.push(97);
    v.push(108);
    v.push(115);
    v.push(101);
    proof {
        assert(v@ =~= spec_false_bytes());
    }
    v
}

/// Canonical decimal encoding of an unsigned integer.
pub fn encode_unsigned(n: u64) -> (r: Vec<u8>)
    ensures
        r@ == spec_digits(n as nat),
    decreases n,
{
    if n < 10 {
        let mut v: Vec<u8> = Vec::new();
        v.push(48 + (n as u8));
        proof {
            assert(v@ =~= spec_digits(n as nat));
        }
        v
    } else {
        let mut v = encode_unsigned(n / 10);
        v.push(48 + ((n % 10) as u8));
        proof {
            assert(v@ =~= spec_digits((n as nat) / 10).push((48 + (n as nat) % 10) as u8));
        }
        v
    }
}

/// A digit-string prefix never denotes more than the whole string.
proof fn lemma_digits_value_prefix(s: Seq<u8>, j: int)
    requires
        0 <= j <= s.len(),
    ensures
        spec_digits_value(s.take(j)) <= spec_digits_value(s),
    decreases s.len(),
{
    if j < s.len() {
        lemma_digits_value_prefix(s.drop_last(), j);
        assert(s.take(j) =~= s.drop_last().take(j));
        assert(spec_digits_value(s.drop_last()) * 10 >= spec_digits_value(s.drop_last()));
    } else {
        assert(s.take(j) =~= s);
    }
}

/// Strict decimal parse of an unsigned integer.
pub fn parse_unsigned(s: &Vec<u8>) -> (r: Option<u64>)
    ensures
        match r {
            Some(n) => spec_decode(ScalarKind::Unsigned, s@) == Some(ScalarModel::Unsigned(n)),
            None => spec_decode(ScalarKind::Unsigned, s@) is None,
        },
{
    if s.len() == 0 {
        return None;
    }
    let mut acc: u64 = 0;
    let mut i: usize = 0;
    while i < s.len()
        invariant
            0 <= i <= s.len(),
            all_digits(s@.take(i as int)),
            acc == spec_digits_value(s@.take(i as int)),
        decreases s.len() - i,
    {
        let b = s[i];
        if b < 48 || b > 57 {
            proof {
                assert(!is_ascii_digit(s@[i as int]));
            }
            return None;
        }
        let d = (b - 48) as u64;
        if acc > (u64::MAX - d) / 10 {
            proof {
                assert(acc * 10 + d > u64::MAX) by (nonlinear_arith)
                    requires
                        acc > (u64::MAX - d) / 10,
                        d <= u64::MAX,
                ;
                assert(s@.take(i as int + 1).drop_last() =~= s@.take(i as int));
                assert(spec_digits_value(s@.take(i as int + 1)) == acc * 10 + d);
                lemma_digits_value_prefix(s@, i as int + 1);
            }
            return None;
        }
        proof {
            assert(acc * 10 + d <= u64::MAX) by (nonlinear_arith)
                requires
                    acc <= (u64::MAX - d) / 10,
                    d <= u64::MAX,
            ;
            assert(s@.take(i as int + 1).drop_last() =~= s@.take(i as int));
        }
        acc = acc * 10 + d;
        i = i + 1;
    }
    proof {
        assert(s@.take(s@.len() as int) =~= s@);
    }
    Some(acc)
}

/// Encodes a scalar value into its byte representation.
pub fn encode_scalar(s: &Scalar) -> (r: Vec<u8>)
    ensures
        r@ == spec_encode(s@),
{
    match s {
        Scalar::Bytes(b) => copy_bytes(b),
        Scalar::Boolean(b) => if *b {
            true_bytes()
        } else {
            false_bytes()
        },
        Scalar::Unsigned(n) => encode_unsigned(*n),
    }
}

/// Decodes a byte representation into a scalar value of the given class.
pub fn decode_scalar(k: ScalarKind, s: &Vec<u8>) -> (r: Option<Scalar>)
    ensures
        match r {
            Some(sc) => spec_decode(k, s@) == Some(sc@),
            None => spec_decode(k, s@) is None,
        },
{
    match k {
        ScalarKind::Bytes => Some(Scalar::Bytes(copy_bytes(s))),
        ScalarKind::Boolean => {
            let t = true_bytes();
            if bytes_eq(s, &t) {
                Some(Scalar::Boolean(true))
            } else {
                let f = false_bytes();
                if bytes_eq(s, &f) {
                    Some(Scalar::Boolean(false))
                } else {
                    None
                }
            }
        },
        ScalarKind::Unsigned => match parse_unsigned(s) {
            Some(n) => Some(Scalar::Unsigned(n)),
            None => None,
        },
    }
}

/// The canonical digit string of a number is nonempty, all digits, and
/// denotes the number itself.
pub proof fn lemma_digits_of(n: nat)
    ensures
        spec_digits(n).len() > 0,
        all_digits(spec_digits(n)),
        spec_digits_value(spec_digits(n)) == n,
    decreases n,
{
    if n < 10 {
        assert(spec_digits(n) =~= seq![(48 + n) as u8]);
        assert(spec_digits_value(spec_digits(n).drop_last()) == 0);
    } else {
        lemma_digits_of(n / 10);
        assert(spec_digits(n).drop_last() =~= spec_digits(n / 10));
        assert(spec_digits(n).last() == (48 + n % 10) as u8);
        assert(n / 10 * 10 + n % 10 == n) by (nonlinear_arith);
        assert(forall|i: int|
            0 <= i < spec_digits(n).len() ==> is_ascii_digit(#[trigger] spec_digits(n)[i]));
    }
}

/// Law: decoding an encoded scalar, at the scalar's own class, returns the
/// value unchanged.
pub proof fn lemma_scalar_roundtrip(s: ScalarModel)
    ensures
        spec_decode(scalar_kind_of(s), spec_encode(s)) == Some(s),
{
    match s {
        ScalarModel::Bytes(_) => {},
        ScalarModel::Boolean(b) => {
            assert(spec_true_bytes().len() != spec_false_bytes().len());
        },
        ScalarModel::Unsigned(n) => {
            lemma_digits_of(n as nat);
        },
    }
}

} // verus!
