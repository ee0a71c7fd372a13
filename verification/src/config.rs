//! The textual options: the image dimensions `WIDTHxHEIGHT` and the two
//! halves of a range `START..END`.

use vstd::prelude::*;
use vstd::string::*;
use crate::decimal::{
    chars_of,
    decimal_digits,
    lemma_decimal_round_trip,
    parse_unsigned,
    read_unsigned,
    write_unsigned,
};

verus! {

/// The quality threshold where none is given: the encoding of 0.
pub const DEFAULT_THRESHOLD: u64 = 0;

/// The colour period where none is given: the encoding of 1.
pub const DEFAULT_COLOR_PERIOD: u64 = 0x3ff0_0000_0000_0000;

/// A malformed option.
#[derive(Clone, Copy, Debug, PartialEq, Eq, Structural)]
pub enum ConfigError {
    /// The dimensions do not hold exactly one `x`.
    DimensionsForm,
    /// The text before the `x` is no unsigned integer.
    InvalidWidth,
    /// The text after the `x` is no unsigned integer.
    InvalidHeight,
    /// The range does not split at exactly one `..`.
    RangeForm,
    /// Other than five fit coefficients were given.
    CoefficientCount,
}

impl ConfigError {
    /// The message of each error.
    pub open spec fn message_text(self) -> Seq<char> {
        match self {
            ConfigError::DimensionsForm => "Dimensions must be of the form WIDTHxHEIGHT"@,
            ConfigError::InvalidWidth => "Invalid integer for width"@,
            ConfigError::InvalidHeight => "Invalid integer for height"@,
            ConfigError::RangeForm => "Range must be of the form START..END"@,
            ConfigError::CoefficientCount => "Exactly five fit coefficients are required"@,
        }
    }

    /// The message to show for this error.
    pub fn message(&self) -> (r: &'static str)
        ensures
            r@ == self.message_text(),
    {
        match self {
            ConfigError::DimensionsForm => "Dimensions must be of the form WIDTHxHEIGHT",
            ConfigError::InvalidWidth => "Invalid integer for width",
            ConfigError::InvalidHeight => "Invalid integer for height",
            ConfigError::RangeForm => "Range must be of the form START..END",
            ConfigError::CoefficientCount => "Exactly five fit coefficients are required",
        }
    }
}

/// The width and height of the output image in pixels.
#[derive(Clone, Copy, Debug, PartialEq, Eq, Structural)]
pub struct Dimensions(pub usize, pub usize);

/// Whether the only `x` of `text` stands at `at`.
pub open spec fn sole_separator(text: Seq<char>, at: int) -> bool {
    &&& 0 <= at < text.len()
    &&& text[at] == 'x'
    &&& forall|i: int| 0 <= i < text.len() && i != at ==> text[i] != 'x'
}

/// What `text` denotes as dimensions: it must hold exactly one `x`, with an
/// unsigned integer before it, the width, and one after it, the height. A bad
/// width is reported before a bad height.
pub open spec fn parse_dimensions(text: Seq<char>) -> Result<Dimensions, ConfigError> {
    if exists|at: int| sole_separator(text, at) {
        let at = choose|at: int| sole_separator(text, at);
        match parse_unsigned(text.take(at)) {
            None => Err(ConfigError::InvalidWidth),
            Some(width) => match parse_unsigned(text.skip(at + 1)) {
                None => Err(ConfigError::InvalidHeight),
                Some(height) => Ok(Dimensions(width, height)),
            },
        }
    } else {
        Err(ConfigError::DimensionsForm)
    }
}

/// The text of dimensions: the width, an `x`, the height.
pub open spec fn dimensions_text(d: Dimensions) -> Seq<char> {
    decimal_digits(d.0 as nat).push('x') + decimal_digits(d.1 as nat)
}

/// Whether two dots stand at `i` and `i + 1`.
pub open spec fn dots_at(text: Seq<char>, i: int) -> bool {
    0 <= i && i + 1 < text.len() && text[i] == '.' && text[i + 1] == '.'
}

/// Whether `text` splits at `at` into exactly two parts: the first `..`
/// stands there, and none follows behind it.
pub open spec fn sole_dots(text: Seq<char>, at: int) -> bool {
    &&& dots_at(text, at)
    &&& forall|i: int| 0 <= i < at ==> !dots_at(text, i)
    &&& forall|i: int| at + 2 <= i ==> !dots_at(text, i)
}

/// The two halves of a range, where `text` splits into exactly two.
pub open spec fn range_halves(text: Seq<char>) -> Option<(Seq<char>, Seq<char>)> {
    if exists|at: int| sole_dots(text, at) {
        let at = choose|at: int| sole_dots(text, at);
        Some((text.take(at), text.skip(at + 2)))
    } else {
        None
    }
}

/// The first place from `from` on where `c` stands, or the length of `text`.
fn find_char(text: &Vec<char>, from: usize, c: char) -> (at: usize)
    requires
        from <= text.len(),
    ensures
        from <= at <= text.len(),
        at < text.len() ==> text[at as int] == c,
        forall|i: int| from <= i < at ==> text[i] != c,
{
    let mut i: usize = from;
    while i < text.len() && text[i] != c
        invariant
            from <= i <= text.len(),
            forall|j: int| from <= j < i ==> text[j] != c,
        decreases text.len() - i,
    {
        i += 1;
    }
    i
}

/// The first place from `from` on where two dots stand, or the length of
/// `text`.
fn find_dots(text: &Vec<char>, from: usize) -> (at: usize)
    requires
        from <= text.len(),
    ensures
        from <= at <= text.len(),
        at < text.len() ==> dots_at(text@, at as int),
        forall|i: int| from <= i < at ==> !dots_at(text@, i),
{
    let mut i: usize = from;
    while i < text.len()
        invariant
            from <= i <= text.len(),
            forall|j: int| from <= j < i ==> !dots_at(text@, j),
        decreases text.len() - i,
    {
        if text[i] == '.' && i + 1 < text.len() && text[i + 1] == '.' {
            return i;
        }
        i += 1;
    }
    i
}

impl Dimensions {
    /// Reads dimensions of the form `WIDTHxHEIGHT`.
    pub fn from_str(s: &str) -> (r: Result<Dimensions, ConfigError>)
        ensures
            r == parse_dimensions(s@),
    {
        let text = chars_of(s);
        let at = find_char(&text, 0, 'x');
        if at >= text.len() {
            return Err(ConfigError::DimensionsForm);
        }
        let other = find_char(&text, at + 1, 'x');
        if other < text.len() {
            return Err(ConfigError::DimensionsForm);
        }
        proof {
            assert(sole_separator(text@, at as int));
        }
        let width = match read_unsigned(&text, 0, at) {
            Some(width) => width,
            None => {
                return Err(ConfigError::InvalidWidth);
            },
        };
        let height = match read_unsigned(&text, at + 1, text.len()) {
            Some(height) => height,
            None => {
                return Err(ConfigError::InvalidHeight);
            },
        };
        Ok(Dimensions(width, height))
    }

    /// Writes the dimensions as `WIDTHxHEIGHT`.
    pub fn to_text(&self) -> (r: String)
        ensures
            r@ == dimensions_text(*self),
    {
        let mut out = String::new();
        write_unsigned(&mut out, self.0);
        proof {
            reveal_strlit("x");
        }
        out.append("x");
        write_unsigned(&mut out, self.1);
        out
    }
}

impl Default for Dimensions {
    /// 640 by 480 pixels.
    fn default() -> (r: Dimensions)
        ensures
            r == Dimensions(640, 480),
    {
        Dimensions(640, 480)
    }
}

/// Reading what was written gives the dimensions back.
pub proof fn lemma_dimensions_round_trip(d: Dimensions)
    ensures
        parse_dimensions(dimensions_text(d)) == Ok::<Dimensions, ConfigError>(d),
{
    let w = decimal_digits(d.0 as nat);
    let h = decimal_digits(d.1 as nat);
    let text = dimensions_text(d);
    lemma_decimal_round_trip(d.0 as nat);
    lemma_decimal_round_trip(d.1 as nat);
    let at = w.len() as int;
    assert(sole_separator(text, at));
    assert(text.take(at) =~= w);
    assert(text.skip(at + 1) =~= h);
}

/// Splits a range of the form `START..END` into its two halves. Each half is
/// left as text, to be read as a number by the caller.
pub fn split_range<'a>(s: &'a str) -> (r: Result<(&'a str, &'a str), ConfigError>)
    ensures
        r.is_ok() <==> range_halves(s@).is_some(),
        r matches Ok(halves) ==> range_halves(s@) == Some((halves.0@, halves.1@)),
        r matches Err(e) ==> e == ConfigError::RangeForm,
{
    let text = chars_of(s);
    let at = find_dots(&text, 0);
    if at >= text.len() {
        return Err(ConfigError::RangeForm);
    }
    let other = find_dots(&text, at + 2);
    if other < text.len() {
        return Err(ConfigError::RangeForm);
    }
    proof {
        assert(sole_dots(text@, at as int));
    }
    let start = s.substring_char(0, at);
    let end = s.substring_char(at + 2, text.len());
    Ok((start, end))
}

} // verus!
