//! The one way in which replicating a line can fail, and the text that
//! reports it.

use vstd::prelude::*;
use vstd::string::StringExecFns;

verus! {

/// Why an image was left as it was.
#[derive(Clone, Copy, Debug, PartialEq, Eq, Structural)]
pub enum ExpandError {
    /// The source line lies outside the image; `(x, y)` is the first pixel
    /// that the line would have had.
    OutOfBounds { x: u32, y: u32 },
}

/// The character that stands for a decimal digit.
pub open spec fn digit(d: nat) -> char {
    if d == 0 {
        '0'
    } else if d == 1 {
        '1'
    } else if d == 2 {
        '2'
    } else if d == 3 {
        '3'
    } else if d == 4 {
        '4'
    } else if d == 5 {
        '5'
    } else if d == 6 {
        '6'
    } else if d == 7 {
        '7'
    } else if d == 8 {
        '8'
    } else {
        '9'
    }
}

/// A number written in base ten, without sign or leading zeros.
pub open spec fn decimal(n: nat) -> Seq<char>
    decreases n,
{
    if n < 10 {
        seq![digit(n)]
    } else {
        decimal(n / 10).push(digit(n % 10))
    }
}

fn digit_text(d: u32) -> (text: &'static str)
    requires
        d < 10,
    ensures
        text@ == seq![digit(d as nat)],
{
    proof {
        reveal_strlit("0");
        reveal_strlit("1");
        reveal_strlit("2");
        reveal_strlit("3");
        reveal_strlit("4");
        reveal_strlit("5");
        reveal_strlit("6");
        reveal_strlit("7");
        reveal_strlit("8");
        reveal_strlit("9");
    }
    let text = if d == 0 {
        "0"
    } else if d == 1 {
        "1"
    } else if d == 2 {
        "2"
    } else if d == 3 {
        "3"
    } else if d == 4 {
        "4"
    } else if d == 5 {
        "5"
    } else if d == 6 {
        "6"
    } else if d == 7 {
        "7"
    } else if d == 8 {
        "8"
    } else {
        "9"
    };
    assert(text@ =~= seq![digit(d as nat)]);
    text
}

fn append_decimal(text: &mut String, n: u32)
    ensures
        final(text)@ == old(text)@ + decimal(n as nat),
    decreases n,
{
    if n >= 10 {
        append_decimal(text, n / 10);
    }
    text.append(digit_text(n % 10));
    assert(text@ =~= old(text)@ + decimal(n as nat));
}

impl ExpandError {
    /// The characters of [`ExpandError::message`].
    pub open spec fn message_text(self) -> Seq<char> {
        match self {
            ExpandError::OutOfBounds { x, y } => "Pixel out of bounds: ("@ + decimal(x as nat)
                + ", "@ + decimal(y as nat) + ")"@,
        }
    }

    /// The report for the error stream: the words `Pixel out of bounds: `
    /// and the pixel, as `(x, y)`.
    pub fn message(&self) -> (text: String)
        ensures
            text@ == self.message_text(),
    {
        match self {
            ExpandError::OutOfBounds { x, y } => {
                let mut text = String::from_str("Pixel out of bounds: (");
                append_decimal(&mut text, *x);
                text.append(", ");
                append_decimal(&mut text, *y);
                text.append(")");
                text
            },
        }
    }
}

} // verus!
