//! Arguments as they are typed: numbers in decimal notation, and the names of
//! the choices.

use vstd::prelude::*;
use vstd::string::StringExecFns;
use crate::config::{Datatype, Endianess};
use crate::random::DistributionSpec;

verus! {

/// `c` is one of the ten decimal digits.
pub open spec fn is_digit(c: char) -> bool {
    '0' <= c <= '9'
}

/// Every character of `digits` is a decimal digit.
pub open spec fn all_digits(digits: Seq<char>) -> bool {
    forall|i: int| 0 <= i < digits.len() ==> is_digit(#[trigger] digits[i])
}

/// The number that `digits` spell in decimal notation.
pub open spec fn digits_value(digits: Seq<char>) -> nat
    decreases digits.len(),
{
    if digits.len() == 0 {
        0
    } else {
        10 * digits_value(digits.drop_last()) + (digits.last() as nat - '0' as nat) as nat
    }
}

/// `text` without the plus sign that may stand before a number.
pub open spec fn unsigned_part(text: Seq<char>) -> Seq<char> {
    if text.len() > 0 && text[0] == '+' {
        text.drop_first()
    } else {
        text
    }
}

/// The number that `text` spells: decimal digits, at least one, after at most
/// one plus sign.
pub open spec fn decimal(text: Seq<char>) -> Option<nat> {
    let digits = unsigned_part(text);
    if digits.len() > 0 && all_digits(digits) {
        Some(digits_value(digits))
    } else {
        None
    }
}

/// The number that `text` spells, where a `usize` holds it.
pub open spec fn decimal_usize(text: Seq<char>) -> Option<usize> {
    match decimal(text) {
        Some(n) => if n <= usize::MAX {
            Some(n as usize)
        } else {
            None
        },
        None => None,
    }
}

/// Digits spell no less than those before the last of them do.
proof fn lemma_digits_value_grows(digits: Seq<char>, k: int)
    requires
        0 <= k <= digits.len(),
    ensures
        digits_value(digits.take(k)) <= digits_value(digits),
    decreases digits.len(),
{
    if k == digits.len() {
        assert(digits.take(k) =~= digits);
    } else {
        lemma_digits_value_grows(digits.drop_last(), k);
        assert(digits.drop_last().take(k) =~= digits.take(k));
    }
}

/// The number that `input` spells in decimal notation, where it spells one
/// that a `usize` holds.
pub fn parse_usize(input: &str) -> (r: Option<usize>)
    ensures
        r == decimal_usize(input@),
{
    let ghost digits = unsigned_part(input@);
    let ghost start: int = input@.len() - digits.len();
    let mut value: usize = 0;
    let mut any = false;
    let mut first = true;
    for c in it: input.chars()
        invariant
            it.seq() == input@,
            digits == unsigned_part(input@),
            start == input@.len() - digits.len(),
            first <==> it.index() == 0,
            !first ==> start <= it.index(),
            first ==> !any && value == 0,
            !first ==> all_digits(digits.take(it.index() - start)),
            !first ==> value == digits_value(digits.take(it.index() - start)),
            !first ==> (any <==> it.index() > start),
    {
        let ghost k = it.index() as int;
        let sign = first && c == '+';
        first = false;
        if !sign {
            let ghost seen = digits.take(k - start);
            let ghost upto = digits.take(k - start + 1);
            proof {
                assert(upto.drop_last() =~= seen);
                assert(upto.last() == c);
            }
            if !('0' <= c && c <= '9') {
                return None;
            }
            let digit = (c as u32 - '0' as u32) as usize;
            proof {
                lemma_digits_value_grows(digits, k - start + 1);
            }
            value = match value.checked_mul(10) {
                Some(tens) => match tens.checked_add(digit) {
                    Some(sum) => sum,
                    None => {
                        return None;
                    },
                },
                None => {
                    return None;
                },
            };
            any = true;
        }
    }
    proof {
        assert(digits.take(input@.len() - start) =~= digits);
    }
    if any {
        Some(value)
    } else {
        None
    }
}

/// What `{:?}` prints of a string: the string between double quotes, with
/// the characters that would not show escaped.
pub uninterp spec fn quoted(text: Seq<char>) -> Seq<char>;

/// `format!` with `{:?}` on a string: what `Debug` prints of it.
#[verifier::external_body]
fn quote(text: &str) -> (r: String)
    ensures
        r@ == quoted(text@),
{
    format!("{:?}", text)
}

/// The message that says that `input` is no number.
fn not_a_number(input: &str) -> (message: String)
    ensures
        message@ == "Can not parse "@ + quoted(input@) + " as number"@,
{
    let mut message = String::from_str("Can not parse ");
    message.append(quote(input).as_str());
    message.append(" as number");
    message
}

/// The message that says that `input` is zero.
fn not_positive(input: &str) -> (message: String)
    ensures
        message@ == "Expected input to be > 0, got "@ + quoted(input@),
{
    let mut message = String::from_str("Expected input to be > 0, got ");
    message.append(quote(input).as_str());
    message
}

/// Accepts the decimal notation of a number that a `usize` holds, and says
/// of anything else that it is none.
pub fn is_usize(input: String) -> (r: Result<(), String>)
    ensures
        decimal_usize(input@) is Some ==> r is Ok,
        decimal_usize(input@) is None ==> r is Err && r->Err_0@ == "Can not parse "@ + quoted(
            input@,
        ) + " as number"@,
{
    match parse_usize(input.as_str()) {
        Some(_) => Ok(()),
        None => Err(not_a_number(input.as_str())),
    }
}

/// Accepts the decimal notation of a number other than zero that a `usize`
/// holds, and says of anything else what it is.
pub fn is_usize_and_non_null(input: String) -> (r: Result<(), String>)
    ensures
        match decimal_usize(input@) {
            Some(n) => if n > 0 {
                r is Ok
            } else {
                r is Err && r->Err_0@ == "Expected input to be > 0, got "@ + quoted(input@)
            },
            None => r is Err && r->Err_0@ == "Can not parse "@ + quoted(input@) + " as number"@,
        },
{
    match parse_usize(input.as_str()) {
        Some(n) => if n > 0 {
            Ok(())
        } else {
            Err(not_positive(input.as_str()))
        },
        None => Err(not_a_number(input.as_str())),
    }
}

/// `text` is the name `name`.
fn is_name(text: &str, name: &str) -> (same: bool)
    ensures
        same == (text@ == name@),
{
    text.to_owned() == name.to_owned()
}

impl Endianess {
    /// The byte order that is called `name`: `big`, `little`, or the order
    /// of the machine for any other name.
    pub fn from_name(name: &str) -> (endian: Self)
        ensures
            endian == if name@ == "big"@ {
                Endianess::Big
            } else if name@ == "little"@ {
                Endianess::Little
            } else {
                Endianess::Native
            },
    {
        if is_name(name, "big") {
            Endianess::Big
        } else if is_name(name, "little") {
            Endianess::Little
        } else {
            Endianess::Native
        }
    }
}

impl Datatype {
    /// The width that is called `name`: `f32`, or double precision for any
    /// other name.
    pub fn from_name(name: &str) -> (dt: Self)
        ensures
            dt == if name@ == "f32"@ {
                Datatype::Float
            } else {
                Datatype::Double
            },
    {
        if is_name(name, "f32") {
            Datatype::Float
        } else {
            Datatype::Double
        }
    }
}

impl DistributionSpec {
    /// The distribution that is called `name`, with those of the parameters
    /// that are its own: `uniform` from `minimum` to `maximum`, or `normal`
    /// around `mean` with standard deviation `stddev`.
    pub fn from_name(
        name: &str,
        mean: usize,
        stddev: usize,
        minimum: usize,
        maximum: usize,
    ) -> (r: Option<Self>)
        ensures
            r == if name@ == "uniform"@ {
                Some(DistributionSpec::Uniform { min: minimum, max: maximum })
            } else if name@ == "normal"@ {
                Some(DistributionSpec::Normal { mean, stddev })
            } else {
                None
            },
    {
        if is_name(name, "uniform") {
            Some(DistributionSpec::Uniform { min: minimum, max: maximum })
        } else if is_name(name, "normal") {
            Some(DistributionSpec::Normal { mean, stddev })
        } else {
            None
        }
    }
}

} // verus!
