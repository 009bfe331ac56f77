//! The text of a bonus popup.

use vstd::prelude::*;
use crate::entities::BonusDisplay;

verus! {

/// The character of a decimal digit.
pub open spec fn digit_char(d: int) -> char {
    if d == 0 {
        '0'
    } else if d == 1 {
        '1'
    } else if d == 2 {
        '2'
    } else if d == 3 {
        '3'
    } else if d == 4 {
        '4'
    } else if d == 5 {
        '5'
    } else if d == 6 {
        '6'
    } else if d == 7 {
        '7'
    } else if d == 8 {
        '8'
    } else {
        '9'
    }
}

/// The decimal digits of `n`, most significant first, without leading
/// zeros.
pub open spec fn decimal(n: nat) -> Seq<char>
    decreases n,
{
    if n < 10 {
        seq![digit_char(n as int)]
    } else {
        decimal(n / 10).push(digit_char((n % 10) as int))
    }
}

/// The text that announces a bonus: the word, a space, a plus sign and the
/// amount.
pub open spec fn label_of(amount: u32) -> Seq<char> {
    seq!['B', 'O', 'N', 'U', 'S', ' ', '+'] + decimal(amount as nat)
}

/// Appends a character to a string.
///
/// Trusted: calls `String::push`, which appends the given character to the
/// end of the string.
#[verifier::external_body]
fn push_char(s: &mut String, c: char)
    ensures
        final(s)@ == old(s)@.push(c),
{
    s.push(c)
}

/// The character of the decimal digit `d`.
fn digit(d: u32) -> (c: char)
    requires
        d < 10,
    ensures
        c == digit_char(d as int),
{
    if d == 0 {
        '0'
    } else if d == 1 {
        '1'
    } else if d == 2 {
        '2'
    } else if d == 3 {
        '3'
    } else if d == 4 {
        '4'
    } else if d == 5 {
        '5'
    } else if d == 6 {
        '6'
    } else if d == 7 {
        '7'
    } else if d == 8 {
        '8'
    } else {
        '9'
    }
}

/// Appends the decimal digits of `n` to a string.
fn push_decimal(s: &mut String, n: u32)
    ensures
        final(s)@ == old(s)@ + decimal(n as nat),
    decreases n,
{
    if n >= 10 {
        push_decimal(s, n / 10);
    }
    push_char(s, digit(n % 10));
    assert(s@ =~= old(s)@ + decimal(n as nat));
}

impl BonusDisplay {
    /// The text of the popup.
    pub fn text(&self) -> (s: String)
        ensures
            s@ == label_of(self.amount),
    {
        let mut s = String::new();
        push_char(&mut s, 'B');
        push_char(&mut s, 'O');
        push_char(&mut s, 'N');
        push_char(&mut s, 'U');
        push_char(&mut s, 'S');
        push_char(&mut s, ' ');
        push_char(&mut s, '+');
        assert(s@ =~= seq!['B', 'O', 'N', 'U', 'S', ' ', '+']);
        push_decimal(&mut s, self.amount);
        s
    }
}

} // verus!
