//! Colours as the plot reads them: a packed hexadecimal token.

use vstd::prelude::*;
use vstd::string::*;

verus! {

/// A colour of three channels.
#[derive(Clone, Copy, Debug, PartialEq, Eq, Structural)]
pub struct Rgb {
    pub r: u8,
    pub g: u8,
    pub b: u8,
}

/// The upper-case hexadecimal digit of a value below 16.
pub open spec fn hex_digit(v: nat) -> char {
    if v < 10 {
        (v + 48) as char
    } else {
        (v + 55) as char
    }
}

/// The two hexadecimal digits of a channel.
pub open spec fn hex_pair(v: u8) -> Seq<char> {
    seq![hex_digit((v / 16) as nat), hex_digit((v % 16) as nat)]
}

/// The six hexadecimal digits of a colour: red, green, blue.
pub open spec fn hex_text(c: Rgb) -> Seq<char> {
    hex_pair(c.r) + hex_pair(c.g) + hex_pair(c.b)
}

/// The token of a colour: `0x` and its six digits.
pub open spec fn token_text(c: Rgb) -> Seq<char> {
    seq!['0', 'x'] + hex_text(c)
}

/// The colour as one number, red in the high byte.
pub open spec fn packed(c: Rgb) -> nat {
    (c.r * 65536 + c.g * 256 + c.b) as nat
}

/// The value of an upper-case hexadecimal digit.
pub open spec fn hex_digit_value(c: char) -> nat {
    if 48 <= c as u32 <= 57 {
        (c as u32 - 48) as nat
    } else {
        (c as u32 - 55) as nat
    }
}

/// The number that hexadecimal digits denote, most significant first.
pub open spec fn hex_value(digits: Seq<char>) -> nat
    decreases digits.len(),
{
    if digits.len() == 0 {
        0
    } else {
        hex_value(digits.drop_last()) * 16 + hex_digit_value(digits.last())
    }
}

/// The `UpperHex` formatting of `colorous::Color`: two upper-case
/// hexadecimal digits for each of red, green and blue, in that order.
#[verifier::external_body]
fn upper_hex(c: Rgb) -> (r: String)
    ensures
        r@ == hex_text(c),
{
    format!("{:X}", colorous::Color { r: c.r, g: c.g, b: c.b })
}

impl Rgb {
    /// The token by which the plot reads this colour.
    pub fn token(&self) -> (r: String)
        ensures
            r@ == token_text(*self),
    {
        proof {
            reveal_strlit("0x");
        }
        let mut out = String::from_str("0x");
        let digits = upper_hex(*self);
        out.append(digits.as_str());
        out
    }

    /// The colour as one number, red in the high byte.
    pub fn to_packed(&self) -> (r: u32)
        ensures
            r == packed(*self),
    {
        (self.r as u32) * 65536 + (self.g as u32) * 256 + (self.b as u32)
    }
}

/// The digits of the token denote the packed colour.
pub proof fn lemma_token_denotes_packed(c: Rgb)
    ensures
        hex_value(hex_text(c)) == packed(c),
{
    let t = hex_text(c);
    let t5 = t.drop_last();
    let t4 = t5.drop_last();
    let t3 = t4.drop_last();
    let t2 = t3.drop_last();
    let t1 = t2.drop_last();
    let t0 = t1.drop_last();
    assert(hex_value(t0) == 0);
    assert(hex_value(t1) == c.r / 16) by {
        lemma_hex_digit_value((c.r / 16) as nat);
    }
    assert(hex_value(t2) == c.r) by {
        lemma_hex_digit_value((c.r % 16) as nat);
    }
    assert(hex_value(t3) == c.r * 16 + c.g / 16) by {
        lemma_hex_digit_value((c.g / 16) as nat);
    }
    assert(hex_value(t4) == c.r * 256 + c.g) by {
        lemma_hex_digit_value((c.g % 16) as nat);
    }
    assert(hex_value(t5) == c.r * 4096 + c.g * 16 + c.b / 16) by {
        lemma_hex_digit_value((c.b / 16) as nat);
    }
}

/// A hexadecimal digit denotes the value it was made from.
proof fn lemma_hex_digit_value(v: nat)
    requires
        v < 16,
    ensures
        hex_digit_value(hex_digit(v)) == v,
{
}

} // verus!
