//! Decimal text for unsigned 64-bit numbers.
//!
//! Log records and the public command boundary carry numeric fields as
//! decimal strings; this module renders and parses them with exact
//! contracts, so that a record written by `to_map` can be proved to parse
//! back to the number it came from.

use vstd::prelude::*;
use vstd::string::StrSliceExecFns;
use vstd::string::StringExecFns;

verus! {

/// The digit character for a value in 0..10.
pub open spec fn digit_char(d: int) -> char {
    if d == 0 {
        '0'
    } else if d == 1 {
        '1'
    } else if d == 2 {
        '2'
    } else if d == 3 {
        '3'
    } else if d == 4 {
        '4'
    } else if d == 5 {
        '5'
    } else if d == 6 {
        '6'
    } else if d == 7 {
        '7'
    } else if d == 8 {
        '8'
    } else {
        '9'
    }
}

pub open spec fn is_digit(c: char) -> bool {
    c == '0' || c == '1' || c == '2' || c == '3' || c == '4' || c == '5' || c == '6' || c == '7'
        || c == '8' || c == '9'
}

/// The value of a digit character; 0 on anything else.
pub open spec fn digit_val(c: char) -> nat {
    if c == '1' {
        1
    } else if c == '2' {
        2
    } else if c == '3' {
        3
    } else if c == '4' {
        4
    } else if c == '5' {
        5
    } else if c == '6' {
        6
    } else if c == '7' {
        7
    } else if c == '8' {
        8
    } else if c == '9' {
        9
    } else {
        0
    }
}

pub open spec fn all_digits(s: Seq<char>) -> bool {
    forall|i: int| 0 <= i < s.len() ==> is_digit(#[trigger] s[i])
}

/// Decimal text of `n`: most significant digit first, no leading zeros.
pub open spec fn dec_text(n: nat) -> Seq<char>
    decreases n,
{
    if n < 10 {
        seq![digit_char(n as int)]
    } else {
        dec_text(n / 10).push(digit_char((n % 10) as int))
    }
}

/// The number denoted by a digit string, most significant digit first.
pub open spec fn dec_value(s: Seq<char>) -> nat
    decreases s.len(),
{
    if s.len() == 0 {
        0
    } else {
        dec_value(s.drop_last()) * 10 + digit_val(s.last())
    }
}

pub proof fn lemma_dec_text_digits(n: nat)
    ensures
        dec_text(n).len() >= 1,
        all_digits(dec_text(n)),
    decreases n,
{
    if n < 10 {
        assert(is_digit(digit_char(n as int)));
    } else {
        lemma_dec_text_digits(n / 10);
        assert(is_digit(digit_char((n % 10) as int)));
        assert forall|i: int| 0 <= i < dec_text(n).len() implies is_digit(#[trigger] dec_text(n)[i]) by {
            if i < dec_text(n / 10).len() {
                assert(dec_text(n)[i] == dec_text(n / 10)[i]);
            }
        }
    }
}

/// Rendering then evaluating a number gives the number back.
pub proof fn lemma_dec_text_value(n: nat)
    ensures
        dec_value(dec_text(n)) == n,
    decreases n,
{
    if n < 10 {
        let s = dec_text(n);
        assert(s =~= seq![digit_char(n as int)]);
        assert(s.drop_last() =~= Seq::<char>::empty());
        assert(dec_value(Seq::<char>::empty()) == 0);
        assert(s.last() == digit_char(n as int));
        assert(digit_val(digit_char(n as int)) == n);
        assert(dec_value(s) == dec_value(s.drop_last()) * 10 + digit_val(s.last()));
    } else {
        lemma_dec_text_value(n / 10);
        let s = dec_text(n);
        assert(s.drop_last() =~= dec_text(n / 10));
        assert(s.last() == digit_char((n % 10) as int));
        assert(dec_value(s.drop_last()) == n / 10);
        assert(digit_val(digit_char((n % 10) as int)) == n % 10);
        assert(dec_value(s) == (n / 10) * 10 + n % 10);
        assert(n / 10 * 10 + n % 10 == n) by {
            vstd::arithmetic::div_mod::lemma_fundamental_div_mod(n as int, 10);
        }
    }
}

proof fn lemma_dec_value_step(s: Seq<char>, i: int)
    requires
        0 <= i < s.len(),
    ensures
        dec_value(s.take(i + 1)) == dec_value(s.take(i)) * 10 + digit_val(s[i]),
{
    assert(s.take(i + 1).drop_last() =~= s.take(i));
    assert(s.take(i + 1).last() == s[i]);
}

proof fn lemma_dec_value_prefix(s: Seq<char>, j: int)
    requires
        0 <= j <= s.len(),
        all_digits(s),
    ensures
        dec_value(s) >= dec_value(s.take(j)),
    decreases s.len() - j,
{
    if j == s.len() {
        assert(s.take(j) =~= s);
    } else {
        lemma_dec_value_step(s, j);
        lemma_dec_value_prefix(s, j + 1);
    }
}

/// The single-character string for a digit.
fn digit_str(d: u64) -> (s: &'static str)
    requires
        d < 10,
    ensures
        s@ =~= seq![digit_char(d as int)],
{
    proof {
        reveal_strlit("0");
        reveal_strlit("1");
        reveal_strlit("2");
        reveal_strlit("3");
        reveal_strlit("4");
        reveal_strlit("5");
        reveal_strlit("6");
        reveal_strlit("7");
        reveal_strlit("8");
        reveal_strlit("9");
    }
    match d {
        0 => "0",
        1 => "1",
        2 => "2",
        3 => "3",
        4 => "4",
        5 => "5",
        6 => "6",
        7 => "7",
        8 => "8",
        _ => "9",
    }
}

/// Decimal rendering of `n`.
pub fn render_u64(n: u64) -> (s: String)
    ensures
        s@ == dec_text(n as nat),
    decreases n,
{
    if n < 10 {
        let d = digit_str(n);
        d.to_owned()
    } else {
        let mut s = render_u64(n / 10);
        let d = digit_str(n % 10);
        s.append(d);
        proof {
            assert(s@ =~= dec_text((n / 10) as nat).push(digit_char((n % 10) as int)));
        }
        s
    }
}

/// Parses a decimal string.  Returns the value exactly when the string is a
/// non-empty run of digits whose value fits in a `u64`.
pub fn parse_u64(s: &str) -> (r: Option<u64>)
    ensures
        match r {
            Some(v) => s@.len() > 0 && all_digits(s@) && dec_value(s@) == v as nat,
            None => s@.len() == 0 || !all_digits(s@) || dec_value(s@) > u64::MAX,
        },
{
    let len = s.unicode_len();
    if len == 0 {
        return None;
    }
    let mut acc: u64 = 0;
    let mut i: usize = 0;
    while i < len
        invariant
            0 <= i <= len,
            len == s@.len(),
            all_digits(s@.take(i as int)),
            acc as nat == dec_value(s@.take(i as int)),
        decreases len - i,
    {
        let c = s.get_char(i);
        let d: u64 = match c {
            '0' => 0,
            '1' => 1,
            '2' => 2,
            '3' => 3,
            '4' => 4,
            '5' => 5,
            '6' => 6,
            '7' => 7,
            '8' => 8,
            '9' => 9,
            _ => {
                proof {
                    assert(!is_digit(s@[i as int]));
                }
                return None;
            },
        };
        proof {
            assert(d as nat == digit_val(s@[i as int]));
        }
        if acc > (u64::MAX - d) / 10 {
            proof {
                let m = (u64::MAX - d) as int;
                assert(m == 10 * (m / 10) + m % 10 && 0 <= m % 10 < 10) by {
                    vstd::arithmetic::div_mod::lemma_fundamental_div_mod(m, 10);
                }
                assert(acc as int * 10 + d as int > u64::MAX as int);
                lemma_dec_value_step(s@, i as int);
                if all_digits(s@) {
                    lemma_dec_value_prefix(s@, i as int + 1);
                    assert(dec_value(s@) > u64::MAX);
                }
            }
            return None;
        }
        proof {
            let m = (u64::MAX - d) as int;
            assert(m == 10 * (m / 10) + m % 10 && 0 <= m % 10 < 10) by {
                vstd::arithmetic::div_mod::lemma_fundamental_div_mod(m, 10);
            }
            assert(acc as int * 10 + d as int <= u64::MAX as int);
            lemma_dec_value_step(s@, i as int);
        }
        acc = acc * 10 + d;
        i = i + 1;
    }
    proof {
        assert(s@.take(len as int) =~= s@);
    }
    Some(acc)
}

} // verus!
