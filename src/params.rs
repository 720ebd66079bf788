//! Live parameter updates from the control channel.
//!
//! An update names one of `lambda`, `decay` or `rate` and carries its value as
//! text: an unsigned decimal with an optional leading `+` that fits in a byte.

use vstd::prelude::*;
use crate::light::Light;

verus! {

pub const PLUS: u8 = 43;
pub const DIGIT_ZERO: u8 = 48;
pub const DIGIT_NINE: u8 = 57;

#[derive(Clone, Copy, Debug, PartialEq, Eq, Structural)]
pub enum Param {
    Lambda,
    Decay,
    Rate,
}

#[derive(Clone, Copy, Debug, PartialEq, Eq, Structural)]
pub enum UpdateError {
    /// The value is not a decimal that fits in a byte.
    Malformed,
    /// The rate would become zero.
    ZeroRate,
}

pub open spec fn is_digit(b: u8) -> bool {
    DIGIT_ZERO <= b <= DIGIT_NINE
}

pub open spec fn all_digits(s: Seq<u8>) -> bool {
    forall|i: int| 0 <= i < s.len() ==> is_digit(#[trigger] s[i])
}

/// The number written by the decimal digits `s`.
pub open spec fn digits_value(s: Seq<u8>) -> int
    decreases s.len(),
{
    if s.len() == 0 {
        0
    } else {
        digits_value(s.drop_last()) * 10 + (s.last() - DIGIT_ZERO)
    }
}

/// `s` without one leading plus sign.
pub open spec fn unsigned_part(s: Seq<u8>) -> Seq<u8> {
    if s.len() > 0 && s[0] == PLUS {
        s.subrange(1, s.len() as int)
    } else {
        s
    }
}

/// The byte that `s` writes in decimal, if it writes one.
pub open spec fn parse_u8_spec(s: Seq<u8>) -> Option<u8> {
    let d = unsigned_part(s);
    if d.len() > 0 && all_digits(d) && digits_value(d) <= 255 {
        Some(digits_value(d) as u8)
    } else {
        None
    }
}

/// The parameter called `name`, if there is one.
pub open spec fn param_named(name: Seq<char>) -> Option<Param> {
    if name == "lambda"@ {
        Some(Param::Lambda)
    } else if name == "decay"@ {
        Some(Param::Decay)
    } else if name == "rate"@ {
        Some(Param::Rate)
    } else {
        None
    }
}

/// `light` with parameter `p` set to `v` and everything else kept.
pub open spec fn with_param(light: Light, p: Param, v: u8) -> Light {
    match p {
        Param::Lambda => Light { lambda: v, ..light },
        Param::Decay => Light { decay: v, ..light },
        Param::Rate => Light { rate: v, ..light },
    }
}

/// The outcome of an update of `name` to the text `value`, and the light it leaves.
pub open spec fn update_spec(light: Light, name: Seq<char>, value: Seq<u8>) -> (
    Result<Option<Param>, UpdateError>,
    Light,
) {
    match param_named(name) {
        None => (Ok(None), light),
        Some(p) => match parse_u8_spec(value) {
            None => (Err(UpdateError::Malformed), light),
            Some(v) => if p == Param::Rate && v == 0 {
                (Err(UpdateError::ZeroRate), light)
            } else {
                (Ok(Some(p)), with_param(light, p, v))
            },
        },
    }
}

proof fn lemma_digits_step(s: Seq<u8>, j: int)
    requires
        0 <= j < s.len(),
    ensures
        s.subrange(0, j + 1).drop_last() == s.subrange(0, j),
        s.subrange(0, j + 1).last() == s[j],
{
    assert(s.subrange(0, j + 1).drop_last() =~= s.subrange(0, j));
}

/// Reads the byte that `text` writes in decimal, with an optional leading `+`.
pub fn parse_u8(text: &[u8]) -> (r: Option<u8>)
    ensures
        r == parse_u8_spec(text@),
{
    let start: usize = if text.len() > 0 && text[0] == PLUS {
        1
    } else {
        0
    };
    let ghost d = unsigned_part(text@);
    assert(d =~= text@.subrange(start as int, text@.len() as int));
    if start == text.len() {
        return None;
    }
    // `value` is the number read so far, held at 256 once it is too large.
    let mut value: u32 = 0;
    let mut i: usize = start;
    while i < text.len()
        invariant
            start <= i <= text@.len(),
            d == unsigned_part(text@),
            d =~= text@.subrange(start as int, text@.len() as int),
            all_digits(d.subrange(0, i - start)),
            value <= 256,
            value == 256 <==> digits_value(d.subrange(0, i - start)) > 255,
            value < 256 ==> value == digits_value(d.subrange(0, i - start)),
            digits_value(d.subrange(0, i - start)) >= 0,
        decreases text@.len() - i,
    {
        let b = text[i];
        let ghost j = i - start;
        proof {
            lemma_digits_step(d, j);
        }
        if b < DIGIT_ZERO || b > DIGIT_NINE {
            assert(d[j] == text@[i as int]);
            assert(!is_digit(d[j]));
            assert(!all_digits(d));
            return None;
        }
        let digit = (b - DIGIT_ZERO) as u32;
        if value < 256 {
            value = value * 10 + digit;
            if value > 255 {
                value = 256;
            }
        }
        i = i + 1;
        assert(all_digits(d.subrange(0, i - start))) by {
            assert forall|k: int| 0 <= k < i - start implies is_digit(
                #[trigger] d.subrange(0, i - start)[k],
            ) by {
                if k < j {
                    assert(d.subrange(0, i - start)[k] == d.subrange(0, j)[k]);
                }
            }
        }
    }
    assert(d.subrange(0, d.len() as int) =~= d);
    if value < 256 {
        Some(value as u8)
    } else {
        None
    }
}

/// The parameter called `name`, if there is one.
pub fn param_from_name(name: &str) -> (p: Option<Param>)
    ensures
        p == param_named(name@),
{
    let owned = name.to_owned();
    if owned == "lambda".to_owned() {
        Some(Param::Lambda)
    } else if owned == "decay".to_owned() {
        Some(Param::Decay)
    } else if owned == "rate".to_owned() {
        Some(Param::Rate)
    } else {
        None
    }
}

impl Light {
    /// Applies an update of parameter `name` to the text `value`.
    /// An unknown name changes nothing and is no error; a value that is not a
    /// byte, or a zero rate, is refused and changes nothing.
    pub fn update(&mut self, name: &str, value: &[u8]) -> (r: Result<Option<Param>, UpdateError>)
        requires
            old(self).wf(),
        ensures
            final(self).wf(),
            (r, *final(self)) == update_spec(*old(self), name@, value@),
    {
        match param_from_name(name) {
            None => Ok(None),
            Some(p) => match parse_u8(value) {
                None => Err(UpdateError::Malformed),
                Some(v) => {
                    match p {
                        Param::Lambda => {
                            self.lambda = v;
                        },
                        Param::Decay => {
                            self.decay = v;
                        },
                        Param::Rate => {
                            if v == 0 {
                                return Err(UpdateError::ZeroRate);
                            }
                            self.rate = v;
                        },
                    }
                    Ok(Some(p))
                },
            },
        }
    }
}

} // verus!
