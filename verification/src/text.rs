//! Text that the library writes and compares: decimal numbers, lists of
//! lengths, and names without regard to case.

use vstd::prelude::*;

verus! {

/// The upper-case form of a text, as `str::to_uppercase` of the standard
/// library gives it.
pub uninterp spec fn uppercase(s: Seq<char>) -> Seq<char>;

/// The upper-case form of `s`, by a call of `str::to_uppercase`. Taken on
/// trust: that what the call returns depends on the text alone, so that
/// it is the upper-case form that the contracts speak of.
#[verifier::external_body]
pub(crate) fn to_uppercase(s: &str) -> (r: String)
    ensures
        r@ == uppercase(s@),
{
    s.to_uppercase()
}

/// The numeral of one decimal digit.
pub open spec fn digit(d: nat) -> Seq<char> {
    if d == 0 {
        "0"@
    } else if d == 1 {
        "1"@
    } else if d == 2 {
        "2"@
    } else if d == 3 {
        "3"@
    } else if d == 4 {
        "4"@
    } else if d == 5 {
        "5"@
    } else if d == 6 {
        "6"@
    } else if d == 7 {
        "7"@
    } else if d == 8 {
        "8"@
    } else {
        "9"@
    }
}

/// A number written in base ten, without sign or leading zeros.
pub open spec fn decimal(n: nat) -> Seq<char>
    decreases n,
{
    if n < 10 {
        digit(n)
    } else {
        decimal(n / 10) + digit(n % 10)
    }
}

/// The items of a list of lengths, separated by a comma and a space.
pub open spec fn list_items(items: Seq<usize>) -> Seq<char>
    decreases items.len(),
{
    if items.len() == 0 {
        Seq::empty()
    } else if items.len() == 1 {
        decimal(items[0] as nat)
    } else {
        list_items(items.drop_last()) + ", "@ + decimal(items.last() as nat)
    }
}

/// A list of lengths between square brackets, such as `[10, 1]`.
pub open spec fn list_text(items: Seq<usize>) -> Seq<char> {
    "["@ + list_items(items) + "]"@
}

fn digit_text(d: u64) -> (r: &'static str)
    requires
        d < 10,
    ensures
        r@ == digit(d as nat),
{
    if d == 0 {
        "0"
    } else if d == 1 {
        "1"
    } else if d == 2 {
        "2"
    } else if d == 3 {
        "3"
    } else if d == 4 {
        "4"
    } else if d == 5 {
        "5"
    } else if d == 6 {
        "6"
    } else if d == 7 {
        "7"
    } else if d == 8 {
        "8"
    } else {
        "9"
    }
}

/// Writes a number in base ten.
pub fn format_decimal(n: u64) -> (r: String)
    ensures
        r@ == decimal(n as nat),
    decreases n,
{
    if n < 10 {
        String::from_str(digit_text(n))
    } else {
        let mut s = format_decimal(n / 10);
        s.append(digit_text(n % 10));
        s
    }
}

/// Writes a list of lengths between square brackets.
pub fn format_list(items: &[usize]) -> (r: String)
    ensures
        r@ == list_text(items@),
{
    let mut s = String::from_str("[");
    let mut i: usize = 0;
    while i < items.len()
        invariant
            i <= items.len(),
            s@ == "["@ + list_items(items@.take(i as int)),
        decreases items.len() - i,
    {
        let number = format_decimal(items[i] as u64);
        proof {
            let before = items@.take(i as int);
            let after = items@.take(i + 1);
            assert(after.drop_last() =~= before);
            assert(after.last() == items@[i as int]);
        }
        if i > 0 {
            s.append(", ");
        }
        s.append(number.as_str());
        proof {
            let before = items@.take(i as int);
            if i == 0 {
                assert(before.len() == 0);
                assert(s@ =~= "["@ + list_items(items@.take(i + 1)));
            } else {
                assert(s@ =~= "["@ + list_items(items@.take(i + 1)));
            }
        }
        i = i + 1;
    }
    proof {
        assert(items@.take(i as int) =~= items@);
    }
    s.append("]");
    s
}

} // verus!
