//! Small tools for reading and writing text a character at a time.

use vstd::prelude::*;
use vstd::string::*;

verus! {

/// The digit that stands for a number below ten.
pub open spec fn digit_char(d: u8) -> char {
    (d + 48) as char
}

/// A number as `{}` prints it: in decimal, without leading zeros.
pub open spec fn decimal(n: u8) -> Seq<char> {
    if n < 10 {
        seq![digit_char(n)]
    } else if n < 100 {
        seq![digit_char(n / 10), digit_char(n % 10)]
    } else {
        seq![digit_char(n / 100), digit_char((n / 10) % 10), digit_char(n % 10)]
    }
}

/// The characters of `text`, one by one.
pub fn chars_of(text: &str) -> (v: Vec<char>)
    ensures
        v@ == text@,
{
    let n: usize = text.unicode_len();
    let mut v: Vec<char> = Vec::new();
    let mut i: usize = 0;
    while i < n
        invariant
            n == text@.len(),
            i <= n,
            v@ == text@.take(i as int),
        decreases n - i,
    {
        v.push(text.get_char(i));
        i += 1;
    }
    v
}

/// Whether `word` stands in `chars` from position `at` on.
pub fn stands_at(chars: &Vec<char>, at: usize, word: &str) -> (r: bool)
    ensures
        r == (at + word@.len() <= chars@.len() && chars@.subrange(
            at as int,
            at + word@.len(),
        ) == word@),
{
    let letters = chars_of(word);
    let n: usize = letters.len();
    if at > chars.len() || n > chars.len() - at {
        return false;
    }
    let mut i: usize = 0;
    while i < n
        invariant
            n == letters@.len(),
            letters@ == word@,
            at + n <= chars.len(),
            i <= n,
            forall|j: int| 0 <= j < i ==> chars@[at + j] == letters@[j],
        decreases n - i,
    {
        if chars[at + i] != letters[i] {
            return false;
        }
        i += 1;
    }
    assert(chars@.subrange(at as int, at + n) =~= word@);
    true
}

/// The text of one digit.
fn digit_text(d: u8) -> (r: &'static str)
    requires
        d < 10,
    ensures
        r@ == seq![digit_char(d)],
{
    proof {
        reveal_strlit("0");
        reveal_strlit("1");
        reveal_strlit("2");
        reveal_strlit("3");
        reveal_strlit("4");
        reveal_strlit("5");
        reveal_strlit("6");
        reveal_strlit("7");
        reveal_strlit("8");
        reveal_strlit("9");
    }
    let r = match d {
        0 => "0",
        1 => "1",
        2 => "2",
        3 => "3",
        4 => "4",
        5 => "5",
        6 => "6",
        7 => "7",
        8 => "8",
        _ => "9",
    };
    r
}

/// Writes `n` in decimal at the end of `out`.
pub fn push_decimal(out: &mut String, n: u8)
    ensures
        final(out)@ == old(out)@ + decimal(n),
{
    if n >= 100 {
        out.append(digit_text(n / 100));
    }
    if n >= 10 {
        out.append(digit_text((n / 10) % 10));
    }
    out.append(digit_text(n % 10));
}

} // verus!
