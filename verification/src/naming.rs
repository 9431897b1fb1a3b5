//! The rule that binds an invoice number to the name of its directory.

use vstd::prelude::*;
use vstd::string::*;

verus! {

/// The character that writes the digit `d`.
pub open spec fn digit_char(d: int) -> char {
    if d == 0 {
        '0'
    } else if d == 1 {
        '1'
    } else if d == 2 {
        '2'
    } else if d == 3 {
        '3'
    } else if d == 4 {
        '4'
    } else if d == 5 {
        '5'
    } else if d == 6 {
        '6'
    } else if d == 7 {
        '7'
    } else if d == 8 {
        '8'
    } else {
        '9'
    }
}

/// The digit that a character writes, or 10 where it writes none.
pub open spec fn digit_value(c: char) -> nat {
    if c == '0' {
        0
    } else if c == '1' {
        1
    } else if c == '2' {
        2
    } else if c == '3' {
        3
    } else if c == '4' {
        4
    } else if c == '5' {
        5
    } else if c == '6' {
        6
    } else if c == '7' {
        7
    } else if c == '8' {
        8
    } else if c == '9' {
        9
    } else {
        10
    }
}

/// The decimal digits of `n`, most significant first, without padding.
pub open spec fn decimal_digits(n: nat) -> Seq<char>
    decreases n,
{
    if n < 10 {
        seq![digit_char(n as int)]
    } else {
        decimal_digits(n / 10).push(digit_char((n % 10) as int))
    }
}

/// The number that a sequence of digits writes.
pub open spec fn decimal_value(s: Seq<char>) -> nat
    decreases s.len(),
{
    if s.len() == 0 {
        0
    } else {
        decimal_value(s.drop_last()) * 10 + digit_value(s.last())
    }
}

/// The name of the directory that holds invoice `number`: the number in
/// decimal, with a minus sign in front where it is negative.
pub open spec fn dir_name_of(number: int) -> Seq<char> {
    if number < 0 {
        seq!['-'] + decimal_digits((-number) as nat)
    } else {
        decimal_digits(number as nat)
    }
}

/// The digits of a number are never empty, begin with a digit, and write the
/// number back.
pub proof fn lemma_decimal_digits(n: nat)
    ensures
        decimal_digits(n).len() >= 1,
        digit_value(decimal_digits(n)[0]) < 10,
        decimal_value(decimal_digits(n)) == n,
    decreases n,
{
    if n < 10 {
        let s = decimal_digits(n);
        assert(s.drop_last().len() == 0);
        assert(decimal_value(s.drop_last()) == 0);
        assert(s.last() == digit_char(n as int));
    } else {
        lemma_decimal_digits(n / 10);
        let head = decimal_digits(n / 10);
        let s = decimal_digits(n);
        assert(s.drop_last() =~= head);
        assert(s.last() == digit_char((n % 10) as int));
        assert(s[0] == head[0]);
    }
}

/// Two invoice numbers share a directory name only if they are equal.
pub proof fn lemma_dir_name_injective(a: int, b: int)
    requires
        dir_name_of(a) == dir_name_of(b),
    ensures
        a == b,
{
    let ma: nat = if a < 0 { (-a) as nat } else { a as nat };
    let mb: nat = if b < 0 { (-b) as nat } else { b as nat };
    lemma_decimal_digits(ma);
    lemma_decimal_digits(mb);
    let da = decimal_digits(ma);
    let db = decimal_digits(mb);
    if a < 0 && b < 0 {
        assert((seq!['-'] + da).subrange(1, 1 + da.len() as int) =~= da);
        assert((seq!['-'] + db).subrange(1, 1 + db.len() as int) =~= db);
        assert(da.len() == db.len()) by {
            assert((seq!['-'] + da).len() == 1 + da.len());
            assert((seq!['-'] + db).len() == 1 + db.len());
        }
        assert(da == db);
    } else if a < 0 {
        assert((seq!['-'] + da)[0] == '-');
        assert(db[0] == '-');
    } else if b < 0 {
        assert((seq!['-'] + db)[0] == '-');
        assert(da[0] == '-');
    }
}

/// The text of one digit.
fn digit_text(d: u64) -> (text: &'static str)
    requires
        d < 10,
    ensures
        text@ == seq![digit_char(d as int)],
{
    proof {
        reveal_strlit("0");
        reveal_strlit("1");
        reveal_strlit("2");
        reveal_strlit("3");
        reveal_strlit("4");
        reveal_strlit("5");
        reveal_strlit("6");
        reveal_strlit("7");
        reveal_strlit("8");
        reveal_strlit("9");
    }
    let text = if d == 0 {
        "0"
    } else if d == 1 {
        "1"
    } else if d == 2 {
        "2"
    } else if d == 3 {
        "3"
    } else if d == 4 {
        "4"
    } else if d == 5 {
        "5"
    } else if d == 6 {
        "6"
    } else if d == 7 {
        "7"
    } else if d == 8 {
        "8"
    } else {
        "9"
    };
    assert(text@ =~= seq![digit_char(d as int)]);
    text
}

/// Appends the decimal digits of `n` to `out`.
pub fn push_decimal(out: &mut String, n: u64)
    ensures
        final(out)@ == old(out)@ + decimal_digits(n as nat),
    decreases n,
{
    if n >= 10 {
        push_decimal(out, n / 10);
    }
    let ghost before = out@;
    out.append(digit_text(n % 10));
    proof {
        let c = digit_char((n % 10) as int);
        if n >= 10 {
            assert(before == old(out)@ + decimal_digits((n / 10) as nat));
            assert(out@ =~= old(out)@ + decimal_digits((n / 10) as nat).push(c));
        } else {
            assert(out@ =~= old(out)@ + seq![c]);
        }
    }
}

/// Appends an integer in decimal, with its sign where it is negative.
pub fn push_integer(out: &mut String, number: i32)
    ensures
        final(out)@ == old(out)@ + dir_name_of(number as int),
{
    let wide: i64 = number as i64;
    if wide < 0 {
        out.append("-");
        proof {
            reveal_strlit("-");
            assert("-"@ =~= seq!['-']);
        }
        let ghost middle = out@;
        push_decimal(out, (0 - wide) as u64);
        assert(out@ =~= old(out)@ + (seq!['-'] + decimal_digits((-number) as nat)));
    } else {
        push_decimal(out, wide as u64);
    }
}

/// The name of the directory that holds invoice `number`.
pub fn dir_name(number: i32) -> (name: String)
    ensures
        name@ == dir_name_of(number as int),
{
    let mut name = String::new();
    push_integer(&mut name, number);
    assert(name@ =~= dir_name_of(number as int));
    name
}

/// Whether a directory of this name holds invoice `number`: the name must be
/// the number's decimal form, whole and exact.
pub fn matches_invoice(name: &String, number: i32) -> (hit: bool)
    ensures
        hit == (name@ == dir_name_of(number as int)),
{
    let expected = dir_name(number);
    *name == expected
}

} // verus!
