//! Process targets: `pid:<number>` in place of an application's name.

use vstd::prelude::*;

use crate::text::{chars_of, starts_with};
#[allow(unused_imports)]
use crate::text::{decimal, has_prefix};

verus! {

/// Whether `c` is an ASCII decimal digit.
pub open spec fn is_digit(c: char) -> bool {
    '0' <= c && c <= '9'
}

/// Whether `s` is one or more decimal digits.
pub open spec fn is_number(s: Seq<char>) -> bool {
    s.len() > 0 && forall|i: int| 0 <= i < s.len() ==> is_digit(#[trigger] s[i])
}

/// The number that a run of digits stands for.
pub open spec fn number_value(s: Seq<char>) -> nat
    decreases s.len(),
{
    if s.len() == 0 {
        0
    } else {
        number_value(s.drop_last()) * 10 + (s.last() as nat - '0' as nat) as nat
    }
}

/// The integer that `s` stands for: digits, after an optional sign.
pub open spec fn integer_value(s: Seq<char>) -> Option<int> {
    if s.len() > 0 && s[0] == '-' {
        if is_number(s.skip(1)) {
            Some(-(number_value(s.skip(1)) as int))
        } else {
            None
        }
    } else if s.len() > 0 && s[0] == '+' {
        if is_number(s.skip(1)) {
            Some(number_value(s.skip(1)) as int)
        } else {
            None
        }
    } else if is_number(s) {
        Some(number_value(s) as int)
    } else {
        None
    }
}

/// The process that an application name names outright: `pid:` and a positive
/// 32-bit integer.
pub open spec fn pid_target(name: Seq<char>) -> Option<i32> {
    if has_prefix(name, "pid:"@) {
        match integer_value(name.skip(4)) {
            Some(v) => if 0 < v <= i32::MAX {
                Some(v as i32)
            } else {
                None
            },
            None => None,
        }
    } else {
        None
    }
}

proof fn number_value_grows(s: Seq<char>, i: int)
    requires
        0 <= i <= s.len(),
        forall|j: int| 0 <= j < s.len() ==> is_digit(#[trigger] s[j]),
    ensures
        number_value(s.take(i)) <= number_value(s),
    decreases s.len(),
{
    if i == s.len() {
        assert(s.take(i) =~= s);
    } else {
        number_value_grows(s.drop_last(), i);
        assert(s.drop_last().take(i) =~= s.take(i));
    }
}

/// The value of the digits from `from` on, where they are digits to the end and
/// their value is at most `i32::MAX`.
fn small_number(chars: &Vec<char>, from: usize) -> (r: Option<i32>)
    requires
        from <= chars.len(),
    ensures
        r == (if is_number(chars@.skip(from as int)) && number_value(chars@.skip(from as int))
            <= i32::MAX {
            Some(number_value(chars@.skip(from as int)) as i32)
        } else {
            None
        }),
{
    let ghost s = chars@.skip(from as int);
    if from == chars.len() {
        return None;
    }
    let mut value: i64 = 0;
    let mut i: usize = from;
    while i < chars.len()
        invariant
            from <= i <= chars.len(),
            s == chars@.skip(from as int),
            0 <= value <= i32::MAX,
            value == number_value(s.take(i - from)),
            forall|j: int| 0 <= j < i - from ==> is_digit(#[trigger] s[j]),
        decreases chars.len() - i,
    {
        let c = chars[i];
        assert(s[i - from] == c);
        if c < '0' || c > '9' {
            return None;
        }
        assert(s.take(i - from + 1).drop_last() =~= s.take(i - from));
        value = value * 10 + (c as i64 - '0' as i64);
        if value > i32::MAX as i64 {
            proof {
                if is_number(s) {
                    number_value_grows(s, i - from + 1);
                }
            }
            return None;
        }
        i += 1;
    }
    assert(s.take(s.len() as int) =~= s);
    Some(value as i32)
}

/// The process that `app_name` names outright, if it does: `pid:` followed by what
/// `i32` parses, where that is positive.
pub fn parse_pid_target(app_name: &str) -> (r: Option<i32>)
    ensures
        r == pid_target(app_name@),
{
    if !starts_with(app_name, "pid:") {
        return None;
    }
    let chars = chars_of(app_name);
    proof {
        reveal_strlit("pid:");
    }
    let ghost rest = app_name@.skip(4);
    if chars.len() == 4 {
        return None;
    }
    assert(rest[0] == chars@[4]);
    assert(rest.skip(1) =~= chars@.skip(5));
    let value = if chars[4] == '-' {
        return None;
    } else if chars[4] == '+' {
        small_number(&chars, 5)
    } else {
        small_number(&chars, 4)
    };
    match value {
        Some(v) => if v > 0 {
            Some(v)
        } else {
            None
        },
        None => None,
    }
}

proof fn decimal_is_number(n: nat)
    ensures
        is_number(decimal(n)),
        number_value(decimal(n)) == n,
        decimal(n)[0] != '+' && decimal(n)[0] != '-',
    decreases n,
{
    if n < 10 {
        reveal_with_fuel(number_value, 2);
        assert(decimal(n).drop_last() =~= Seq::<char>::empty());
    } else {
        decimal_is_number(n / 10);
        assert(decimal(n).drop_last() =~= decimal(n / 10));
    }
}

/// Every process can be named: writing `pid:` and its number names that process.
pub proof fn pid_target_names_every_process(pid: i32)
    requires
        pid > 0,
    ensures
        pid_target("pid:"@ + decimal(pid as nat)) == Some(pid),
{
    reveal_strlit("pid:");
    let name = "pid:"@ + decimal(pid as nat);
    decimal_is_number(pid as nat);
    assert(name.subrange(0, 4) =~= "pid:"@);
    assert(name.skip(4) =~= decimal(pid as nat));
}

/// Only positive process numbers are ever named outright.
pub proof fn pid_target_is_positive(name: Seq<char>)
    ensures
        pid_target(name) is Some ==> pid_target(name)->0 > 0,
{
}

/// So many zeros.
pub open spec fn zeros(n: nat) -> Seq<char> {
    Seq::new(n, |i: int| '0')
}

proof fn leading_zeros_do_not_count(k: nat, n: nat)
    ensures
        is_number(zeros(k) + decimal(n)),
        number_value(zeros(k) + decimal(n)) == n,
    decreases n,
{
    let s = zeros(k) + decimal(n);
    decimal_is_number(n);
    assert forall|i: int| 0 <= i < s.len() implies is_digit(#[trigger] s[i]) by {
        if i >= k {
            assert(s[i] == decimal(n)[i - k]);
        }
    }
    if n < 10 {
        assert(s.drop_last() =~= zeros(k));
        zeros_are_worth_nothing(k);
    } else {
        leading_zeros_do_not_count(k, n / 10);
        assert(s.drop_last() =~= zeros(k) + decimal(n / 10));
    }
}

proof fn zeros_are_worth_nothing(k: nat)
    ensures
        number_value(zeros(k)) == 0,
    decreases k,
{
    if k > 0 {
        zeros_are_worth_nothing((k - 1) as nat);
        assert(zeros(k).drop_last() =~= zeros((k - 1) as nat));
    }
}

/// A process is named by `pid:` and its number, which may have a plus sign and zeros
/// before it, if the number is positive and no more than the largest 32-bit integer. No
/// number with a minus sign names a process.
pub proof fn numbers_name_processes(k: nat, n: nat)
    ensures
        ({
            let named = if 0 < n <= 0x7fff_ffff {
                Some(n as i32)
            } else {
                None
            };
            let number = zeros(k) + decimal(n);
            &&& pid_target(seq!['p', 'i', 'd', ':'] + number) == named
            &&& pid_target(seq!['p', 'i', 'd', ':', '+'] + number) == named
            &&& pid_target(seq!['p', 'i', 'd', ':', '-'] + number) is None
        }),
{
    let number = zeros(k) + decimal(n);
    let plain = seq!['p', 'i', 'd', ':'] + number;
    let plus = seq!['p', 'i', 'd', ':', '+'] + number;
    let minus = seq!['p', 'i', 'd', ':', '-'] + number;
    reveal_strlit("pid:");
    leading_zeros_do_not_count(k, n);
    decimal_is_number(n);
    assert("pid:"@ =~= seq!['p', 'i', 'd', ':']);
    assert(plain.subrange(0, 4) =~= "pid:"@);
    assert(plus.subrange(0, 4) =~= "pid:"@);
    assert(minus.subrange(0, 4) =~= "pid:"@);
    assert(plain.skip(4) =~= number);
    assert(plus.skip(4) =~= seq!['+'] + number);
    assert(minus.skip(4) =~= seq!['-'] + number);
    assert((seq!['+'] + number).skip(1) =~= number);
    assert((seq!['-'] + number).skip(1) =~= number);
    assert(is_digit(number[0]));
}

/// Nothing else names a process: what does begins with `pid:`, goes on with digits to
/// the end, of which there is at least one, and has at most a plus sign between the two.
pub proof fn only_numbers_name_processes(name: Seq<char>)
    requires
        pid_target(name) is Some,
    ensures
        name.len() > 4,
        name[0] == 'p' && name[1] == 'i' && name[2] == 'd' && name[3] == ':',
        forall|i: int|
            4 < i < name.len() ==> '0' <= #[trigger] name[i] && name[i] <= '9',
        ('0' <= name[4] && name[4] <= '9') || (name[4] == '+' && name.len() > 5),
{
    reveal_strlit("pid:");
    let rest = name.skip(4);
    assert(name.subrange(0, 4) == "pid:"@);
    assert(name[0] == name.subrange(0, 4)[0]);
    assert(name[1] == name.subrange(0, 4)[1]);
    assert(name[2] == name.subrange(0, 4)[2]);
    assert(name[3] == name.subrange(0, 4)[3]);
    if rest.len() > 0 && rest[0] == '+' {
        assert forall|i: int| 4 < i < name.len() implies '0' <= #[trigger] name[i] && name[i]
            <= '9' by {
            assert(is_digit(rest.skip(1)[i - 5]));
        }
    } else {
        assert forall|i: int| 4 <= i < name.len() implies '0' <= #[trigger] name[i] && name[i]
            <= '9' by {
            assert(is_digit(rest[i - 4]));
        }
    }
}

} // verus!
