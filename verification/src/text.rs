//! Conversions between strings and sequences of characters.

use vstd::prelude::*;
use vstd::std_specs::iter::IteratorSpec;

verus! {

/// `String::push` of the standard library: appends one character to the end
/// of the string and leaves the rest as it was.
pub assume_specification[ String::push ](s: &mut String, ch: char)
    ensures
        final(s)@ == old(s)@.push(ch),
;

/// Decodes a string into its characters, in one forward pass.
pub fn decode(s: &str) -> (chars: Vec<char>)
    ensures
        chars@ == s@,
{
    let mut chars: Vec<char> = Vec::new();
    let mut it = s.chars();
    loop
        invariant
            chars@ + it.remaining() == s@,
            it.decrease() is Some,
        ensures
            it.remaining().len() == 0,
        decreases it.decrease()->0,
    {
        broadcast use vstd::string::next_postcondition;

        match it.next() {
            Some(c) => {
                proof {
                    assert(chars@.push(c) + it.remaining() =~= s@);
                }
                chars.push(c);
            },
            None => {
                break ;
            },
        }
    }
    proof {
        assert(chars@ =~= s@);
    }
    chars
}

/// Builds the string that holds the characters `chars[from..to]`.
pub fn slice_to_string(chars: &Vec<char>, from: usize, to: usize) -> (s: String)
    requires
        from <= to <= chars@.len(),
    ensures
        s@ == chars@.subrange(from as int, to as int),
{
    let mut s = String::new();
    let mut i: usize = from;
    while i < to
        invariant
            from <= i <= to <= chars@.len(),
            s@ == chars@.subrange(from as int, i as int),
        decreases to - i,
    {
        s.push(chars[i]);
        i = i + 1;
        proof {
            assert(s@ =~= chars@.subrange(from as int, i as int));
        }
    }
    s
}

/// The character that shows a digit value; values above 9 have no digit and
/// show as `?`.
pub open spec fn digit_char(d: u8) -> char {
    if d == 0 {
        '0'
    } else if d == 1 {
        '1'
    } else if d == 2 {
        '2'
    } else if d == 3 {
        '3'
    } else if d == 4 {
        '4'
    } else if d == 5 {
        '5'
    } else if d == 6 {
        '6'
    } else if d == 7 {
        '7'
    } else if d == 8 {
        '8'
    } else if d == 9 {
        '9'
    } else {
        '?'
    }
}

/// The characters that show a sequence of digit values.
pub open spec fn digits_text(ds: Seq<u8>) -> Seq<char> {
    Seq::new(ds.len(), |i: int| digit_char(ds[i]))
}

/// The character that shows a digit value.
pub fn digit_to_char(d: u8) -> (c: char)
    ensures
        c == digit_char(d),
{
    match d {
        0 => '0',
        1 => '1',
        2 => '2',
        3 => '3',
        4 => '4',
        5 => '5',
        6 => '6',
        7 => '7',
        8 => '8',
        9 => '9',
        _ => '?',
    }
}

/// Writes a sequence of digit values out as characters.
pub fn digits_to_string(ds: &Vec<u8>) -> (s: String)
    ensures
        s@ == digits_text(ds@),
{
    let mut s = String::new();
    let mut i: usize = 0;
    while i < ds.len()
        invariant
            i <= ds@.len(),
            s@ == digits_text(ds@.subrange(0, i as int)),
        decreases ds@.len() - i,
    {
        s.push(digit_to_char(ds[i]));
        i = i + 1;
        proof {
            assert(s@ =~= digits_text(ds@.subrange(0, i as int)));
        }
    }
    proof {
        assert(ds@.subrange(0, i as int) =~= ds@);
    }
    s
}

/// A natural number written out in decimal, without leading zeros.
pub open spec fn decimal_text(n: nat) -> Seq<char>
    decreases n,
{
    if n < 10 {
        seq![digit_char(n as u8)]
    } else {
        decimal_text(n / 10).push(digit_char((n % 10) as u8))
    }
}

/// Appends `n`, written out in decimal, to `s`.
pub fn push_decimal(s: &mut String, n: usize)
    ensures
        final(s)@ == old(s)@ + decimal_text(n as nat),
    decreases n,
{
    if n >= 10 {
        push_decimal(s, n / 10);
    }
    let d: u8 = (n % 10) as u8;
    s.push(digit_to_char(d));
    proof {
        assert(final(s)@ =~= old(s)@ + decimal_text(n as nat));
    }
}

} // verus!
