//! Board coordinates and their string renderings.

use vstd::prelude::*;

verus! {

/// A board cell: a pair of small unsigned integers `(row, col)`.
/// The broker imposes no range validation; coordinates are a transparent
/// payload field of a turn record.
#[derive(Clone, Copy, Debug, PartialEq, Eq, Structural)]
pub struct GameCoord {
    pub row: u8,
    pub col: u8,
}

/// Failure of the letter-number rendering: the row is too large to be
/// written as a single Latin letter.
#[derive(Clone, Copy, Debug, PartialEq, Eq, Structural)]
pub enum CoordError {
    RowToCharConversion,
}

/// The decimal digit character for `d`.
pub open spec fn digit_char(d: int) -> char
    recommends
        0 <= d <= 9,
{
    ((48 + d) as u8) as char
}

/// The decimal rendering of `n`: most significant digit first, no sign,
/// no leading zeros.
pub open spec fn dec_digits(n: int) -> Seq<char>
    recommends
        n >= 0,
    decreases n,
{
    if n <= 9 {
        seq![digit_char(n)]
    } else {
        dec_digits(n / 10).push(digit_char(n % 10))
    }
}

/// The single-letter rendering of a row below 52: `A`..`Z` for 0..25,
/// `a`..`z` for 26..51.
pub open spec fn row_letter(row: int) -> char
    recommends
        0 <= row < 52,
{
    if row < 26 {
        ((65 + row) as u8) as char
    } else {
        ((97 + (row - 26)) as u8) as char
    }
}

/// The `A7`-style rendering of a coordinate whose row fits a letter.
pub open spec fn letter_number_string(c: GameCoord) -> Seq<char>
    recommends
        c.row < 52,
{
    seq![row_letter(c.row as int)] + dec_digits(c.col as int)
}

/// The `(row,col)` rendering of a coordinate.
pub open spec fn tuple_string(c: GameCoord) -> Seq<char> {
    seq!['('] + dec_digits(c.row as int) + seq![','] + dec_digits(c.col as int) + seq![')']
}

/// Relies on std's `String::push`: appends exactly the given character.
#[verifier::external_body]
fn push_char(s: &mut String, c: char)
    ensures
        final(s)@ == old(s)@.push(c),
{
    s.push(c)
}

fn push_digit(s: &mut String, d: u8)
    requires
        d <= 9,
    ensures
        final(s)@ == old(s)@.push(digit_char(d as int)),
{
    push_char(s, (48 + d) as char);
}

fn push_dec_u8(s: &mut String, n: u8)
    ensures
        final(s)@ == old(s)@ + dec_digits(n as int),
{
    if n >= 100 {
        push_digit(s, n / 100);
        push_digit(s, (n / 10) % 10);
        push_digit(s, n % 10);
        proof {
            assert(dec_digits(n as int / 100) =~= seq![digit_char(n as int / 100)]);
            assert(dec_digits(n as int / 10) =~= dec_digits(n as int / 100).push(
                digit_char((n as int / 10) % 10),
            ));
            assert(final(s)@ =~= old(s)@ + dec_digits(n as int));
        }
    } else if n >= 10 {
        push_digit(s, n / 10);
        push_digit(s, n % 10);
        proof {
            assert(dec_digits(n as int / 10) =~= seq![digit_char(n as int / 10)]);
            assert(final(s)@ =~= old(s)@ + dec_digits(n as int));
        }
    } else {
        push_digit(s, n);
        proof {
            assert(final(s)@ =~= old(s)@ + dec_digits(n as int));
        }
    }
}

impl GameCoord {
    /// Renders the coordinate in chess style, a row letter followed by the
    /// decimal column (`A7`), failing when the row does not fit a single
    /// Latin letter (row 52 or above).
    pub fn try_to_letter_number_string(self) -> (r: Result<String, CoordError>)
        ensures
            self.row < 52 ==> (r matches Ok(s) && s@ == letter_number_string(self)),
            self.row >= 52 ==> r == Err::<String, CoordError>(CoordError::RowToCharConversion),
    {
        if self.row < 52 {
            let mut s = String::new();
            if self.row < 26 {
                push_char(&mut s, (65 + self.row) as char);
            } else {
                push_char(&mut s, (97 + (self.row - 26)) as char);
            }
            push_dec_u8(&mut s, self.col);
            proof {
                assert(s@ =~= letter_number_string(self));
            }
            Ok(s)
        } else {
            Err(CoordError::RowToCharConversion)
        }
    }

    /// Renders the coordinate as a decimal pair in parentheses, `(row,col)`.
    pub fn to_tuple_string(self) -> (r: String)
        ensures
            r@ == tuple_string(self),
    {
        let mut s = String::new();
        push_char(&mut s, '(');
        push_dec_u8(&mut s, self.row);
        push_char(&mut s, ',');
        push_dec_u8(&mut s, self.col);
        push_char(&mut s, ')');
        proof {
            assert(s@ =~= tuple_string(self));
        }
        s
    }

    /// The display form of a coordinate: the letter-number rendering when the
    /// row fits a letter, the tuple rendering otherwise.
    pub fn to_display_string(self) -> (r: String)
        ensures
            r@ == (if self.row < 52 {
                letter_number_string(self)
            } else {
                tuple_string(self)
            }),
    {
        match self.try_to_letter_number_string() {
            Ok(s) => s,
            Err(_) => self.to_tuple_string(),
        }
    }
}

} // verus!
