//! Literal values, each with its width or representation.

use crate::bound::Bound;
use crate::range::Range;
use crate::signed::{signed_decimal, Int256};
use crate::word::{decimal_digits, Word};
use ethers_core::types::H256;
use vstd::prelude::*;
use vstd::string::StringExecFns;

verus! {

/// A value known from the source text.
#[derive(Debug, PartialEq, Eq)]
pub enum Concrete {
    /// An unsigned integer of the given width in bits.
    Uint(u16, Word),
    /// A signed integer of the given width in bits.
    Int(u16, Int256),
    /// A byte array of the given length, left-aligned in 32 bytes.
    Bytes(u8, [u8; 32]),
    Address([u8; 20]),
    DynBytes(Vec<u8>),
    String(String),
    Bool(bool),
    Array(Vec<Concrete>),
}

/// The character of one hexadecimal digit, in lower case.
pub open spec fn hex_char(d: nat) -> char {
    if d == 0 {
        '0'
    } else if d == 1 {
        '1'
    } else if d == 2 {
        '2'
    } else if d == 3 {
        '3'
    } else if d == 4 {
        '4'
    } else if d == 5 {
        '5'
    } else if d == 6 {
        '6'
    } else if d == 7 {
        '7'
    } else if d == 8 {
        '8'
    } else if d == 9 {
        '9'
    } else if d == 10 {
        'a'
    } else if d == 11 {
        'b'
    } else if d == 12 {
        'c'
    } else if d == 13 {
        'd'
    } else if d == 14 {
        'e'
    } else {
        'f'
    }
}

/// Two hexadecimal digits for each byte, in order.
pub open spec fn hex_digits(bytes: Seq<u8>) -> Seq<char>
    decreases bytes.len(),
{
    if bytes.len() == 0 {
        Seq::empty()
    } else {
        hex_digits(bytes.drop_last()).push(hex_char((bytes.last() / 16) as nat)).push(
            hex_char((bytes.last() % 16) as nat),
        )
    }
}

/// Formats an `H256` with `{:x}`: two lower-case hexadecimal digits for each of the 32
/// bytes.
#[verifier::external_body]
fn bytes_to_hex(bytes: &[u8; 32]) -> (s: String)
    ensures
        s@ == hex_digits(bytes@),
{
    format!("{:x}", H256(*bytes))
}

impl Concrete {
    /// Whether the literal is a number or a truth value.
    pub open spec fn is_numeric(&self) -> bool {
        self is Uint || self is Int || self is Bool
    }

    /// The number that a numeric literal stands for; a truth value stands for 0 or 1.
    pub open spec fn number(&self) -> int {
        match self {
            Concrete::Uint(_, v) => v@ as int,
            Concrete::Int(_, v) => v@,
            Concrete::Bool(b) => if *b {
                1
            } else {
                0
            },
            _ => 0,
        }
    }

    /// Whether the literal has a rendering as text.
    pub open spec fn has_text(&self) -> bool {
        self is Uint || self is Int || self is Bytes || self is String
    }

    /// The rendering of the literal as text.
    pub open spec fn text(&self) -> Seq<char> {
        match self {
            Concrete::Uint(_, v) => decimal_digits(v@),
            Concrete::Int(_, v) => signed_decimal(v@),
            Concrete::Bytes(_, b) => seq!['0', 'x'] + hex_digits(b@),
            Concrete::String(s) => s@,
            _ => Seq::empty(),
        }
    }

    /// The value of an unsigned integer literal.
    pub fn uint_val(&self) -> (r: Option<Word>)
        ensures
            r == match self {
                Concrete::Uint(_, v) => Some(*v),
                _ => None,
            },
    {
        match self {
            Concrete::Uint(_, val) => Some(*val),
            _ => None,
        }
    }

    /// The value of a signed integer literal.
    pub fn int_val(&self) -> (r: Option<Int256>)
        ensures
            r == match self {
                Concrete::Int(_, v) => Some(*v),
                _ => None,
            },
    {
        match self {
            Concrete::Int(_, val) => Some(*val),
            _ => None,
        }
    }

    /// The literal as text: integers in decimal, byte arrays in hexadecimal, strings as
    /// they are.
    pub fn as_string(&self) -> (s: String)
        requires
            self.has_text(),
        ensures
            s@ == self.text(),
    {
        match self {
            Concrete::Uint(_, val) => val.to_decimal(),
            Concrete::Int(_, val) => val.to_decimal(),
            Concrete::Bytes(_, b) => {
                let digits = bytes_to_hex(b);
                proof {
                    reveal_strlit("0x");
                    assert("0x"@ =~= seq!['0', 'x']);
                }
                "0x".to_owned().concat(digits.as_str())
            },
            Concrete::String(s) => s.clone(),
            _ => String::new(),
        }
    }

    /// The range of a literal: exactly its number. A literal that is no number has none.
    pub fn range(&self) -> (r: Option<Range>)
        ensures
            r.is_some() <==> self.is_numeric(),
            r.is_some() ==> r.unwrap().is_exact() && r.unwrap().span().min
                == self.number() && r.unwrap().span().max == self.number()
                && !r.unwrap().span().flagged,
    {
        match self {
            Concrete::Uint(_, val) => Some(Range::Exact(Bound::from_word(*val))),
            Concrete::Int(_, val) => Some(Range::Exact(val.to_bound())),
            Concrete::Bool(b) => Some(
                Range::Exact(
                    if *b {
                        Bound::one()
                    } else {
                        Bound::zero()
                    },
                ),
            ),
            _ => None,
        }
    }
}

} // verus!
