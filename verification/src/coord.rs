//! Board coordinates: a validated file/rank pair, its text form ("b2"), and
//! its quirky display form ("b 1", with the rank printed one below its value).

use vstd::prelude::*;

verus! {

/// One of the 64 board squares, when valid: a file/rank pair, each in 1..=8.
#[derive(Debug, Copy, Clone, PartialEq, Eq, Structural)]
pub struct Position {
    /// The file (column), 1 through 8, written as the letters a through h.
    pub x: u8,
    /// The rank (row), 1 through 8.
    pub y: u8,
}

impl Position {
    /// Both components lie on the board.
    pub open spec fn valid(self) -> bool {
        1 <= self.x <= 8 && 1 <= self.y <= 8
    }
}

/// The one-letter text of a file number; for totality, any value past 7 is
/// written "h".
pub open spec fn file_letter_text(x: u8) -> Seq<char> {
    if x == 1 {
        "a"@
    } else if x == 2 {
        "b"@
    } else if x == 3 {
        "c"@
    } else if x == 4 {
        "d"@
    } else if x == 5 {
        "e"@
    } else if x == 6 {
        "f"@
    } else if x == 7 {
        "g"@
    } else {
        "h"@
    }
}

/// The display text of a rank: one below its value, the display format's
/// intentional quirk. For totality, any value past 8 is written "7".
pub open spec fn rank_display_text(y: u8) -> Seq<char> {
    if y == 1 {
        "0"@
    } else if y == 2 {
        "1"@
    } else if y == 3 {
        "2"@
    } else if y == 4 {
        "3"@
    } else if y == 5 {
        "4"@
    } else if y == 6 {
        "5"@
    } else if y == 7 {
        "6"@
    } else {
        "7"@
    }
}

/// The display text of a square: the file letter, a space, and the rank
/// printed one below its value ("b 1" for b2).
pub open spec fn position_display(p: Position) -> Seq<char> {
    file_letter_text(p.x) + " "@ + rank_display_text(p.y)
}

impl Position {
    /// Renders the square in the display format: the file letter, a space,
    /// and the rank printed one below its value.
    pub fn to_display_string(&self) -> (r: String)
        requires
            self.valid(),
        ensures
            r@ == position_display(*self),
    {
        let letter: &str = match self.x {
            1 => "a",
            2 => "b",
            3 => "c",
            4 => "d",
            5 => "e",
            6 => "f",
            7 => "g",
            _ => "h",
        };
        let digit: &str = match self.y {
            1 => "0",
            2 => "1",
            3 => "2",
            4 => "3",
            5 => "4",
            6 => "5",
            7 => "6",
            _ => "7",
        };
        let mut s = String::from_str(letter);
        s.append(" ");
        s.append(digit);
        proof {
            assert(s@ =~= position_display(*self));
        }
        s
    }
}

/// Failure of coordinate parsing.
#[derive(Debug, Copy, Clone, PartialEq, Eq, Structural)]
pub enum ParseError {
    /// The text is not a file letter a..h followed by a rank in 1..=8.
    PositionCannotBeParsed,
}

/// The file number (1 through 8) named by a lowercase file letter; 0 for any
/// other character.
pub open spec fn file_of_char(c: char) -> int {
    if c == 'a' {
        1
    } else if c == 'b' {
        2
    } else if c == 'c' {
        3
    } else if c == 'd' {
        4
    } else if c == 'e' {
        5
    } else if c == 'f' {
        6
    } else if c == 'g' {
        7
    } else if c == 'h' {
        8
    } else {
        0
    }
}

/// The value of a decimal digit character; -1 for any other character.
pub open spec fn digit_of_char(c: char) -> int {
    if c == '0' {
        0
    } else if c == '1' {
        1
    } else if c == '2' {
        2
    } else if c == '3' {
        3
    } else if c == '4' {
        4
    } else if c == '5' {
        5
    } else if c == '6' {
        6
    } else if c == '7' {
        7
    } else if c == '8' {
        8
    } else if c == '9' {
        9
    } else {
        -1
    }
}

/// The number a non-empty, all-digit token denotes in decimal; -1 if the
/// token is empty or any character is not a digit.
pub open spec fn decimal_value(s: Seq<char>) -> int
    decreases s.len(),
{
    if s.len() == 0 {
        -1
    } else if s.len() == 1 {
        digit_of_char(s[0])
    } else {
        let prefix = decimal_value(s.drop_last());
        let last = digit_of_char(s.last());
        if prefix < 0 || last < 0 {
            -1
        } else {
            prefix * 10 + last
        }
    }
}

/// The coordinate a text denotes, if any: one file letter a..h followed by a
/// decimal rank token whose value lies in 1..=8.
pub open spec fn parsed_position(s: Seq<char>) -> Option<Position> {
    if s.len() < 2 {
        None
    } else {
        let file = file_of_char(s[0]);
        let rank = decimal_value(s.subrange(1, s.len() as int));
        if file >= 1 && 1 <= rank <= 8 {
            Some(Position { x: file as u8, y: rank as u8 })
        } else {
            None
        }
    }
}

/// A token whose decimal value is defined consists of digits only.
proof fn lemma_decimal_value_digits(s: Seq<char>)
    requires
        decimal_value(s) >= 0,
    ensures
        forall|j: int| 0 <= j < s.len() ==> digit_of_char(s[j]) >= 0,
    decreases s.len(),
{
    if s.len() > 1 {
        lemma_decimal_value_digits(s.drop_last());
        assert(forall|j: int| 0 <= j < s.len() - 1 ==> s[j] == s.drop_last()[j]);
    }
}

fn file_number(c: char) -> (r: u8)
    ensures
        r as int == file_of_char(c),
{
    match c {
        'a' => 1,
        'b' => 2,
        'c' => 3,
        'd' => 4,
        'e' => 5,
        'f' => 6,
        'g' => 7,
        'h' => 8,
        _ => 0,
    }
}

fn digit_value(c: char) -> (r: Option<u8>)
    ensures
        match r {
            Some(d) => d as int == digit_of_char(c) && d <= 9,
            None => digit_of_char(c) < 0,
        },
{
    match c {
        '0' => Some(0),
        '1' => Some(1),
        '2' => Some(2),
        '3' => Some(3),
        '4' => Some(4),
        '5' => Some(5),
        '6' => Some(6),
        '7' => Some(7),
        '8' => Some(8),
        '9' => Some(9),
        _ => None,
    }
}

/// Parses a coordinate text such as "b2": one file letter a..h, then a
/// decimal rank in 1..=8. Anything else is rejected, never a panic.
pub fn string_to_position(coordinates: &str) -> (r: Result<Position, ParseError>)
    ensures
        match r {
            Ok(p) => parsed_position(coordinates@) == Some(p) && p.valid(),
            Err(e) => parsed_position(coordinates@) is None && e
                == ParseError::PositionCannotBeParsed,
        },
{
    let n = coordinates.unicode_len();
    if n < 2 {
        return Err(ParseError::PositionCannotBeParsed);
    }
    let file = file_number(coordinates.get_char(0));
    if file == 0 {
        return Err(ParseError::PositionCannotBeParsed);
    }
    // The rank token's value, clamped to 9 as soon as it exceeds the largest
    // rank, so that the accumulator can never overflow.
    let mut rank: u8 = 0;
    let mut i: usize = 1;
    while i < n
        invariant
            1 <= i <= n,
            n == coordinates@.len(),
            rank <= 9,
            i == 1 ==> rank == 0,
            i > 1 ==> decimal_value(coordinates@.subrange(1, i as int)) >= 0,
            i > 1 ==> {
                let v = decimal_value(coordinates@.subrange(1, i as int));
                if v <= 8 {
                    rank == v
                } else {
                    rank == 9
                }
            },
        decreases n - i,
    {
        let d = match digit_value(coordinates.get_char(i)) {
            Some(d) => d,
            None => {
                proof {
                    let token = coordinates@.subrange(1, n as int);
                    if decimal_value(token) >= 0 {
                        lemma_decimal_value_digits(token);
                        assert(digit_of_char(token[i - 1]) >= 0);
                    }
                }
                return Err(ParseError::PositionCannotBeParsed);
            },
        };
        proof {
            let prev = coordinates@.subrange(1, i as int);
            let cur = coordinates@.subrange(1, i as int + 1);
            assert(cur.drop_last() =~= prev);
            assert(cur.last() == coordinates@[i as int]);
            if i == 1 {
                assert(cur.len() == 1);
                assert(decimal_value(cur) == digit_of_char(cur[0]));
                assert(cur[0] == coordinates@[1]);
            } else {
                assert(decimal_value(cur) == decimal_value(prev) * 10 + digit_of_char(
                    cur.last(),
                ));
            }
        }
        if rank > 8 {
            rank = 9;
        } else {
            rank = rank * 10 + d;
            if rank > 8 {
                rank = 9;
            }
        }
        i += 1;
    }
    if 1 <= rank && rank <= 8 {
        Ok(Position { x: file, y: rank })
    } else {
        Err(ParseError::PositionCannotBeParsed)
    }
}

} // verus!
