//! The options of the program: the number of human players and the depth
//! of the search, read from the arguments of the command line.

use vstd::prelude::*;
use vstd::string::StrSliceExecFns;

verus! {

/// The options of a game.
#[derive(Debug, Clone, Copy, PartialEq, Eq)]
pub struct ProgramOptions {
    /// 0 lets the computer play both sides, 1 sets a human against the
    /// computer, 2 sets two humans against each other.
    pub number_of_players: i32,
    /// The depth of the computer's search, in plies.
    pub depth: i32,
}

/// The number of human players where none is given.
pub const DEFAULT_NUMBER_OF_PLAYERS: i32 = 1;

/// The depth of the search where none is given.
pub const DEFAULT_DEPTH: i32 = 6;

/// Whether the character is a decimal digit.
pub open spec fn is_digit(c: char) -> bool {
    '0' <= c <= '9'
}

/// The number that a sequence of decimal digits writes.
pub open spec fn decimal(digits: Seq<char>) -> int
    decreases digits.len(),
{
    if digits.len() == 0 {
        0
    } else {
        10 * decimal(digits.drop_last()) + (digits.last() as int - '0' as int)
    }
}

/// The part of a number's text that follows its sign.
pub open spec fn unsigned_part(text: Seq<char>) -> Seq<char> {
    if text.len() > 0 && (text[0] == '-' || text[0] == '+') {
        text.subrange(1, text.len() as int)
    } else {
        text
    }
}

/// The number that a text writes: an optional sign, then one decimal
/// digit or more and nothing else, where the number fits in 32 bits.
pub open spec fn number(text: Seq<char>) -> Option<i32> {
    let digits = unsigned_part(text);
    let value = if text.len() > 0 && text[0] == '-' {
        -decimal(digits)
    } else {
        decimal(digits)
    };
    if digits.len() > 0 && (forall|i: int| 0 <= i < digits.len() ==> is_digit(#[trigger] digits[i]))
        && i32::MIN <= value <= i32::MAX {
        Some(value as i32)
    } else {
        None
    }
}

/// The options that the arguments give, the first being the name of the
/// program: the second the number of human players, the third the depth
/// of the search, each with its default where it is missing. Nothing
/// where one of them writes no number or there are more than three.
pub open spec fn options(args: Seq<Seq<char>>) -> Option<ProgramOptions> {
    let players = if args.len() >= 2 {
        number(args[1])
    } else {
        Some(DEFAULT_NUMBER_OF_PLAYERS)
    };
    let depth = if args.len() >= 3 {
        number(args[2])
    } else {
        Some(DEFAULT_DEPTH)
    };
    if args.len() >= 4 || players is None || depth is None {
        None
    } else {
        Some(ProgramOptions { number_of_players: players.unwrap(), depth: depth.unwrap() })
    }
}

/// Reads a number from a text.
pub fn parse_number(text: &str) -> (r: Option<i32>)
    ensures
        r == number(text@),
{
    let len = text.unicode_len();
    if len == 0 {
        return None;
    }
    let first = text.get_char(0);
    let negative = first == '-';
    let start: usize = if first == '-' || first == '+' {
        1
    } else {
        0
    };
    if start == len {
        return None;
    }
    let ghost digits = unsigned_part(text@);
    let mut value: i64 = 0;
    let mut too_large = false;
    let mut i: usize = start;
    while i < len
        invariant
            start <= i <= len,
            len == text@.len(),
            digits == unsigned_part(text@),
            digits.len() == len - start,
            forall|k: int| 0 <= k < len - start ==> digits[k] == text@[start + k],
            forall|k: int| 0 <= k < i - start ==> is_digit(#[trigger] digits[k]),
            !too_large ==> value == decimal(digits.take(i - start)) && 0 <= value <= 0x8000_0000,
            too_large ==> decimal(digits.take(i - start)) > 0x8000_0000,
        decreases len - i,
    {
        let c = text.get_char(i);
        if !(c >= '0' && c <= '9') {
            proof {
                assert(digits[i - start] == c);
                assert(!is_digit(digits[i - start]));
            }
            return None;
        }
        proof {
            assert(digits[i - start] == c);
            assert(digits.take(i - start + 1).drop_last() =~= digits.take(i - start));
        }
        if !too_large {
            value = value * 10 + (c as u32 - '0' as u32) as i64;
            if value > 0x8000_0000 {
                too_large = true;
            }
        }
        i += 1;
    }
    proof {
        assert(digits.take(len - start) =~= digits);
    }
    if too_large {
        None
    } else if negative {
        Some((-value) as i32)
    } else if value <= 0x7fff_ffff {
        Some(value as i32)
    } else {
        None
    }
}

/// Reads the options from the arguments of the command line. Nothing is
/// returned where the usage is to be shown instead.
pub fn program_options(args: &Vec<String>) -> (r: Option<ProgramOptions>)
    ensures
        r == options(Seq::new(args@.len(), |i: int| args@[i]@)),
{
    let mut number_of_players = DEFAULT_NUMBER_OF_PLAYERS;
    let mut depth = DEFAULT_DEPTH;
    if args.len() >= 2 {
        match parse_number(args[1].as_str()) {
            Some(x) => number_of_players = x,
            None => return None,
        }
    }
    if args.len() >= 3 {
        match parse_number(args[2].as_str()) {
            Some(x) => depth = x,
            None => return None,
        }
    }
    if args.len() >= 4 {
        return None;
    }
    Some(ProgramOptions { number_of_players, depth })
}

} // verus!
