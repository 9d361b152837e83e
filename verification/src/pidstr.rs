//! The textual form of a process identifier, as it is written into and
//! read back from the head-pid record: plain decimal digits, nothing
//! else.

use vstd::prelude::*;

verus! {

/// The value a decimal digit character stands for; ten for any other
/// character.
pub open spec fn digit_val(c: char) -> nat {
    if c == '0' {
        0
    } else if c == '1' {
        1
    } else if c == '2' {
        2
    } else if c == '3' {
        3
    } else if c == '4' {
        4
    } else if c == '5' {
        5
    } else if c == '6' {
        6
    } else if c == '7' {
        7
    } else if c == '8' {
        8
    } else if c == '9' {
        9
    } else {
        10
    }
}

pub open spec fn is_digit(c: char) -> bool {
    digit_val(c) < 10
}

/// The character for a digit value below ten.
pub open spec fn digit_char(d: nat) -> char {
    if d == 0 {
        '0'
    } else if d == 1 {
        '1'
    } else if d == 2 {
        '2'
    } else if d == 3 {
        '3'
    } else if d == 4 {
        '4'
    } else if d == 5 {
        '5'
    } else if d == 6 {
        '6'
    } else if d == 7 {
        '7'
    } else if d == 8 {
        '8'
    } else {
        '9'
    }
}

/// The decimal notation of a number: most significant digit first, no
/// sign, no leading zero except for zero itself.
pub open spec fn decimal_digits(n: nat) -> Seq<char>
    decreases n,
{
    if n < 10 {
        seq![digit_char(n)]
    } else {
        decimal_digits(n / 10) + seq![digit_char(n % 10)]
    }
}

/// A non-empty, all-digit character sequence.
pub open spec fn is_digits(s: Seq<char>) -> bool {
    s.len() > 0 && forall|i: int| 0 <= i < s.len() ==> is_digit(#[trigger] s[i])
}

/// The number a digit sequence denotes.
pub open spec fn digits_value(s: Seq<char>) -> nat
    decreases s.len(),
{
    if s.len() == 0 {
        0
    } else {
        digits_value(s.drop_last()) * 10 + digit_val(s.last())
    }
}

/// Reading back what decimal notation wrote gives the number itself.
pub proof fn lemma_decimal_round_trip(n: nat)
    ensures
        is_digits(decimal_digits(n)),
        digits_value(decimal_digits(n)) == n,
    decreases n,
{
    if n < 10 {
        assert(decimal_digits(n).drop_last() =~= Seq::<char>::empty());
        assert(digit_val(digit_char(n)) == n);
        assert(digits_value(Seq::<char>::empty()) == 0);
        assert(decimal_digits(n).last() == digit_char(n));
        assert(digits_value(decimal_digits(n)) == n);
    } else {
        lemma_decimal_round_trip(n / 10);
        let s = decimal_digits(n);
        let front = decimal_digits(n / 10);
        assert(s.drop_last() =~= front);
        assert(s.last() == digit_char(n % 10));
        assert(digit_val(digit_char(n % 10)) == n % 10);
        assert(digits_value(s) == digits_value(front) * 10 + digit_val(s.last()));
        assert(n / 10 * 10 + n % 10 == n);
        assert forall|i: int| 0 <= i < s.len() implies is_digit(#[trigger] s[i]) by {
            if i < front.len() {
                assert(s[i] == front[i]);
            }
        }
    }
}

/// The single character of a digit value.
fn digit_str(d: u32) -> (r: &'static str)
    requires
        d < 10,
    ensures
        r@ == seq![digit_char(d as nat)],
{
    proof {
        reveal_strlit("0");
        reveal_strlit("1");
        reveal_strlit("2");
        reveal_strlit("3");
        reveal_strlit("4");
        reveal_strlit("5");
        reveal_strlit("6");
        reveal_strlit("7");
        reveal_strlit("8");
        reveal_strlit("9");
    }
    match d {
        0 => "0",
        1 => "1",
        2 => "2",
        3 => "3",
        4 => "4",
        5 => "5",
        6 => "6",
        7 => "7",
        8 => "8",
        _ => "9",
    }
}

/// Writes a process identifier in decimal, the way it is stored in the
/// head-pid record.
pub fn format_pid(pid: u32) -> (r: String)
    ensures
        r@ == decimal_digits(pid as nat),
    decreases pid,
{
    if pid < 10 {
        String::from_str(digit_str(pid))
    } else {
        let mut s = format_pid(pid / 10);
        s.append(digit_str(pid % 10));
        s
    }
}

/// Appending one more digit never shrinks the value a digit string
/// denotes.
proof fn lemma_digits_value_step_mono(s: Seq<char>, j: int)
    requires
        0 <= j < s.len(),
    ensures
        digits_value(s.subrange(0, j)) <= digits_value(s.subrange(0, j + 1)),
{
    let a = s.subrange(0, j);
    let b = s.subrange(0, j + 1);
    assert(b.drop_last() =~= a);
}

/// The value of a prefix never exceeds the value of a longer prefix.
proof fn lemma_digits_value_prefix_mono(s: Seq<char>, i: int, j: int)
    requires
        0 <= i <= j <= s.len(),
    ensures
        digits_value(s.subrange(0, i)) <= digits_value(s.subrange(0, j)),
    decreases j - i,
{
    if i < j {
        lemma_digits_value_step_mono(s, j - 1);
        lemma_digits_value_prefix_mono(s, i, j - 1);
    }
}

/// Reads a decimal process identifier back from its record text.
/// Succeeds exactly on non-empty all-digit strings whose value fits a
/// `u32`, and then yields that value.
pub fn parse_pid(s: &str) -> (r: Option<u32>)
    ensures
        r is Some <==> is_digits(s@) && digits_value(s@) <= u32::MAX,
        r matches Some(v) ==> v as nat == digits_value(s@),
{
    let n = s.unicode_len();
    if n == 0 {
        return None;
    }
    let mut value: u32 = 0;
    let mut i: usize = 0;
    while i < n
        invariant
            0 <= i <= n,
            n == s@.len(),
            n > 0,
            forall|k: int| 0 <= k < i ==> is_digit(#[trigger] s@[k]),
            value as nat == digits_value(s@.subrange(0, i as int)),
        decreases n - i,
    {
        let c = s.get_char(i);
        let d: u32 = match c {
            '0' => 0,
            '1' => 1,
            '2' => 2,
            '3' => 3,
            '4' => 4,
            '5' => 5,
            '6' => 6,
            '7' => 7,
            '8' => 8,
            '9' => 9,
            _ => {
                proof {
                    assert(!is_digit(s@[i as int]));
                }
                return None;
            },
        };
        proof {
            assert(digit_val(s@[i as int]) == d);
            assert(s@.subrange(0, i + 1).drop_last() =~= s@.subrange(0, i as int));
        }
        if value > (u32::MAX - d) / 10 {
            proof {
                let next = s@.subrange(0, i + 1);
                assert(digits_value(next) == value * 10 + d) by (nonlinear_arith)
                    requires
                        digits_value(next) == digits_value(next.drop_last()) * 10 + digit_val(
                            next.last(),
                        ),
                        digits_value(next.drop_last()) == value as nat,
                        digit_val(next.last()) == d,
                ;
                assert(value * 10 + d > u32::MAX) by (nonlinear_arith)
                    requires
                        value > (u32::MAX - d) / 10,
                        d < 10,
                ;
                lemma_digits_value_prefix_mono(s@, i + 1, n as int);
                assert(s@.subrange(0, n as int) =~= s@);
            }
            return None;
        }
        proof {
            assert(value * 10 + d <= u32::MAX) by (nonlinear_arith)
                requires
                    value <= (u32::MAX - d) / 10,
                    d < 10,
            ;
            assert(digits_value(s@.subrange(0, i + 1)) == value * 10 + d);
        }
        value = value * 10 + d;
        i = i + 1;
    }
    proof {
        assert(s@.subrange(0, n as int) =~= s@);
    }
    Some(value)
}

} // verus!
