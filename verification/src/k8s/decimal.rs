use vstd::prelude::*;

verus! {

/// The character of a decimal digit.
pub open spec fn digit_char(d: int) -> char {
    if d == 0 { '0' }
    else if d == 1 { '1' }
    else if d == 2 { '2' }
    else if d == 3 { '3' }
    else if d == 4 { '4' }
    else if d == 5 { '5' }
    else if d == 6 { '6' }
    else if d == 7 { '7' }
    else if d == 8 { '8' }
    else { '9' }
}

/// The decimal digits of a natural number, most significant first, with no
/// leading zero.
pub open spec fn digits(n: nat) -> Seq<char>
    decreases n,
{
    if n < 10 {
        seq![digit_char(n as int)]
    } else {
        digits(n / 10).push(digit_char((n % 10) as int))
    }
}

/// The decimal text of an integer, as `{}` and `{:?}` print an `i32`.
pub open spec fn decimal(n: int) -> Seq<char> {
    if n < 0 {
        seq!['-'] + digits((-n) as nat)
    } else {
        digits(n as nat)
    }
}

/// The value of a decimal digit character (meaningful on '0'..'9').
pub open spec fn digit_value(c: char) -> int {
    c as int - '0' as int
}

/// The number that a string of decimal digits denotes.
pub open spec fn digits_value(s: Seq<char>) -> int
    decreases s.len(),
{
    if s.len() == 0 {
        0
    } else {
        digits_value(s.drop_last()) * 10 + digit_value(s.last())
    }
}

proof fn lemma_digit_char_value(d: int)
    requires
        0 <= d < 10,
    ensures
        digit_value(digit_char(d)) == d,
        '0' <= digit_char(d) <= '9',
{
    if d == 0 { assert('0' as int == 48); }
    else if d == 1 { assert('1' as int == 49); }
    else if d == 2 { assert('2' as int == 50); }
    else if d == 3 { assert('3' as int == 51); }
    else if d == 4 { assert('4' as int == 52); }
    else if d == 5 { assert('5' as int == 53); }
    else if d == 6 { assert('6' as int == 54); }
    else if d == 7 { assert('7' as int == 55); }
    else if d == 8 { assert('8' as int == 56); }
    else { assert('9' as int == 57); }
}

/// The decimal digits of `n` are digit characters, with no leading zero
/// unless `n` is zero, and read back as `n`.
pub proof fn lemma_digits_read_back(n: nat)
    ensures
        digits_value(digits(n)) == n,
        digits(n).len() > 0,
        forall|i: int| 0 <= i < digits(n).len() ==> '0' <= #[trigger] digits(n)[i] <= '9',
        digits(n)[0] == '0' ==> n == 0,
    decreases n,
{
    if n < 10 {
        lemma_digit_char_value(n as int);
        assert(digits(n).drop_last() =~= Seq::<char>::empty());
        assert(digits(n).last() == digit_char(n as int));
        assert(digits_value(digits(n)) == digits_value(digits(n).drop_last()) * 10 + digit_value(digits(n).last()));
        assert(digits_value(Seq::<char>::empty()) == 0);
    } else {
        lemma_digits_read_back(n / 10);
        lemma_digit_char_value((n % 10) as int);
        let prev = digits(n / 10);
        assert(digits(n).drop_last() =~= prev);
        assert(digits(n).last() == digit_char((n % 10) as int));
        assert(digits_value(digits(n)) == digits_value(prev) * 10 + digit_value(digit_char((n % 10) as int)));
        assert(n == (n / 10) * 10 + n % 10);
        assert(digits(n)[0] == prev[0]);
        assert forall|i: int| 0 <= i < digits(n).len() implies '0' <= #[trigger] digits(n)[i] <= '9' by {
            if i < prev.len() {
                assert(digits(n)[i] == prev[i]);
            }
        }
    }
}

/// The text of a negative number is a minus sign and the digits of its
/// magnitude; that of any other number is its digits alone.
pub proof fn lemma_decimal_sign(n: int)
    ensures
        n < 0 ==> decimal(n)[0] == '-' && decimal(n).drop_first() == digits((-n) as nat),
        n >= 0 ==> digits_value(decimal(n)) == n,
{
    if n < 0 {
        assert((seq!['-'] + digits((-n) as nat)).drop_first() =~= digits((-n) as nat));
    } else {
        lemma_digits_read_back(n as nat);
    }
}

fn digit_text(d: u64) -> (s: &'static str)
    requires
        d < 10,
    ensures
        s@ == seq![digit_char(d as int)],
{
    proof {
        reveal_strlit("0");
        reveal_strlit("1");
        reveal_strlit("2");
        reveal_strlit("3");
        reveal_strlit("4");
        reveal_strlit("5");
        reveal_strlit("6");
        reveal_strlit("7");
        reveal_strlit("8");
        reveal_strlit("9");
    }
    if d == 0 { "0" }
    else if d == 1 { "1" }
    else if d == 2 { "2" }
    else if d == 3 { "3" }
    else if d == 4 { "4" }
    else if d == 5 { "5" }
    else if d == 6 { "6" }
    else if d == 7 { "7" }
    else if d == 8 { "8" }
    else { "9" }
}

fn natural_decimal(n: u64) -> (s: String)
    ensures
        s@ == digits(n as nat),
    decreases n,
{
    if n < 10 {
        digit_text(n).to_owned()
    } else {
        let mut s = natural_decimal(n / 10);
        s.append(digit_text(n % 10));
        s
    }
}

/// Writes an `i32` in decimal, with a leading `-` when it is negative.
pub fn i32_decimal(n: i32) -> (s: String)
    ensures
        s@ == decimal(n as int),
{
    if n < 0 {
        let m: u64 = (0i64 - (n as i64)) as u64;
        let mut s = "-".to_owned();
        let tail = natural_decimal(m);
        s.append(tail.as_str());
        proof {
            reveal_strlit("-");
            assert(s@ =~= seq!['-'] + digits((-(n as int)) as nat));
        }
        s
    } else {
        natural_decimal(n as u64)
    }
}

} // verus!
