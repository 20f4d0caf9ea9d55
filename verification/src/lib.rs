//! A small text-transformation library: a fixed set of string
//! transformations (case folding, space removal, slug generation,
//! CSV-to-TSV reformatting), a command parser that selects one of them,
//! and the pure core of a producer/consumer pipeline that feeds requests
//! to the transformations in order.

mod text;
pub mod command;
pub mod transform;
pub mod csvfmt;
pub mod pipeline;

pub use crate::command::Command;
pub use crate::command::CommandParseError;
pub use crate::command::parse_args;
pub use crate::transform::TransformError;
pub use crate::transform::transform;

use vstd::prelude::*;

verus! {

/// A character with the Unicode `White_Space` property: what trimming
/// removes, so what blank input may consist of.
pub open spec fn is_whitespace(c: char) -> bool {
    ||| c == '\u{9}'
    ||| c == '\u{a}'
    ||| c == '\u{b}'
    ||| c == '\u{c}'
    ||| c == '\u{d}'
    ||| c == ' '
    ||| c == '\u{85}'
    ||| c == '\u{a0}'
    ||| c == '\u{1680}'
    ||| c == '\u{2000}'
    ||| c == '\u{2001}'
    ||| c == '\u{2002}'
    ||| c == '\u{2003}'
    ||| c == '\u{2004}'
    ||| c == '\u{2005}'
    ||| c == '\u{2006}'
    ||| c == '\u{2007}'
    ||| c == '\u{2008}'
    ||| c == '\u{2009}'
    ||| c == '\u{200a}'
    ||| c == '\u{2028}'
    ||| c == '\u{2029}'
    ||| c == '\u{202f}'
    ||| c == '\u{205f}'
    ||| c == '\u{3000}'
}

/// A string is blank when every character is whitespace; trimming such a
/// string leaves nothing.
pub open spec fn is_blank(s: Seq<char>) -> bool {
    forall|i: int| 0 <= i < s.len() ==> is_whitespace(#[trigger] s[i])
}

/// Decides the `White_Space` property of one character.
fn is_whitespace_char(c: char) -> (b: bool)
    ensures
        b == is_whitespace(c),
{
    c == '\u{9}' || c == '\u{a}' || c == '\u{b}' || c == '\u{c}' || c == '\u{d}' || c == ' '
        || c == '\u{85}' || c == '\u{a0}' || c == '\u{1680}' || c == '\u{2000}' || c == '\u{2001}'
        || c == '\u{2002}' || c == '\u{2003}' || c == '\u{2004}' || c == '\u{2005}'
        || c == '\u{2006}' || c == '\u{2007}' || c == '\u{2008}' || c == '\u{2009}'
        || c == '\u{200a}' || c == '\u{2028}' || c == '\u{2029}' || c == '\u{202f}'
        || c == '\u{205f}' || c == '\u{3000}'
}

/// Reports whether the input has at least one non-whitespace character,
/// i.e. whether a transformation may be attempted on it.
pub fn validate_input(valid_string: &str) -> (b: bool)
    ensures
        b == !is_blank(valid_string@),
{
    let n: usize = valid_string.unicode_len();
    let mut i: usize = 0;
    while i < n
        invariant
            i <= n,
            n == valid_string@.len(),
            forall|j: int| 0 <= j < i ==> is_whitespace(#[trigger] valid_string@[j]),
        decreases n - i,
    {
        let c = valid_string.get_char(i);
        if !is_whitespace_char(c) {
            return true;
        }
        i = i + 1;
    }
    false
}

} // verus!
