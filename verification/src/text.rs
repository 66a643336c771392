//! Verified text building: decimal rendering of integers and joining of
//! reason strings. The decision engine and the configuration description
//! build every string they return from these pieces.

use vstd::prelude::*;

verus! {

pub open spec fn digit_char(d: int) -> char {
    if d == 0 {
        '0'
    } else if d == 1 {
        '1'
    } else if d == 2 {
        '2'
    } else if d == 3 {
        '3'
    } else if d == 4 {
        '4'
    } else if d == 5 {
        '5'
    } else if d == 6 {
        '6'
    } else if d == 7 {
        '7'
    } else if d == 8 {
        '8'
    } else {
        '9'
    }
}

/// The decimal digits of a positive number, most significant first;
/// empty for zero and below.
pub open spec fn spec_dec_digits(n: int) -> Seq<char>
    decreases n,
{
    if n <= 0 {
        Seq::empty()
    } else {
        spec_dec_digits(n / 10).push(digit_char(n % 10))
    }
}

/// The decimal rendering of an integer, with a leading minus sign when
/// negative.
pub open spec fn spec_dec(n: int) -> Seq<char> {
    if n == 0 {
        seq!['0']
    } else if n < 0 {
        seq!['-'] + spec_dec_digits(-n)
    } else {
        spec_dec_digits(n)
    }
}

fn digit_str(d: u64) -> (r: &'static str)
    requires
        d < 10,
    ensures
        r@ == seq![digit_char(d as int)],
{
    if d == 0 {
        proof {
            reveal_strlit("0");
        }
        assert("0"@ =~= seq![digit_char(0)]);
        "0"
    } else if d == 1 {
        proof {
            reveal_strlit("1");
        }
        assert("1"@ =~= seq![digit_char(1)]);
        "1"
    } else if d == 2 {
        proof {
            reveal_strlit("2");
        }
        assert("2"@ =~= seq![digit_char(2)]);
        "2"
    } else if d == 3 {
        proof {
            reveal_strlit("3");
        }
        assert("3"@ =~= seq![digit_char(3)]);
        "3"
    } else if d == 4 {
        proof {
            reveal_strlit("4");
        }
        assert("4"@ =~= seq![digit_char(4)]);
        "4"
    } else if d == 5 {
        proof {
            reveal_strlit("5");
        }
        assert("5"@ =~= seq![digit_char(5)]);
        "5"
    } else if d == 6 {
        proof {
            reveal_strlit("6");
        }
        assert("6"@ =~= seq![digit_char(6)]);
        "6"
    } else if d == 7 {
        proof {
            reveal_strlit("7");
        }
        assert("7"@ =~= seq![digit_char(7)]);
        "7"
    } else if d == 8 {
        proof {
            reveal_strlit("8");
        }
        assert("8"@ =~= seq![digit_char(8)]);
        "8"
    } else {
        proof {
            reveal_strlit("9");
        }
        assert("9"@ =~= seq![digit_char(9)]);
        "9"
    }
}

fn dec_digits_string(n: u64) -> (r: String)
    ensures
        r@ == spec_dec_digits(n as int),
    decreases n,
{
    if n == 0 {
        let r = String::new();
        assert(r@ =~= spec_dec_digits(0));
        r
    } else {
        let mut s = dec_digits_string(n / 10);
        s.append(digit_str(n % 10));
        assert(s@ =~= spec_dec_digits(n as int));
        s
    }
}

/// Render an unsigned number in decimal.
pub fn u64_to_string(n: u64) -> (r: String)
    ensures
        r@ == spec_dec(n as int),
{
    if n == 0 {
        proof {
            reveal_strlit("0");
        }
        let r = String::from_str("0");
        assert(r@ =~= seq!['0']);
        r
    } else {
        dec_digits_string(n)
    }
}

/// Render a signed number in decimal.
pub fn i64_to_string(n: i64) -> (r: String)
    ensures
        r@ == spec_dec(n as int),
{
    if n == 0 {
        proof {
            reveal_strlit("0");
        }
        let r = String::from_str("0");
        assert(r@ =~= seq!['0']);
        r
    } else if n < 0 {
        proof {
            reveal_strlit("-");
        }
        let mut s = String::from_str("-");
        let mag: u64 = if n == i64::MIN {
            9_223_372_036_854_775_808u64
        } else {
            (-n) as u64
        };
        let rest = dec_digits_string(mag);
        s.append(rest.as_str());
        assert(s@ =~= seq!['-'] + spec_dec_digits(-(n as int)));
        s
    } else {
        dec_digits_string(n as u64)
    }
}

/// Render a `usize` in decimal.
pub fn usize_to_string(n: usize) -> (r: String)
    ensures
        r@ == spec_dec(n as int),
{
    u64_to_string(n as u64)
}

/// The given strings joined with the separator.
pub open spec fn spec_join_with(rs: Seq<Seq<char>>, sep: Seq<char>) -> Seq<char>
    decreases rs.len(),
{
    if rs.len() == 0 {
        Seq::empty()
    } else if rs.len() == 1 {
        rs[0]
    } else {
        spec_join_with(rs.drop_last(), sep) + sep + rs.last()
    }
}

/// The given reason strings joined with `" & "`.
pub open spec fn spec_join_reasons(rs: Seq<Seq<char>>) -> Seq<char> {
    spec_join_with(rs, " & "@)
}

/// Join non-empty strings with a separator.
pub fn join_with(rs: &Vec<String>, sep: &str) -> (r: String)
    requires
        rs@.len() > 0,
    ensures
        r@ == spec_join_with(rs@.map_values(|s: String| s@), sep@),
{
    let ghost views = rs@.map_values(|s: String| s@);
    let mut acc = rs[0].clone();
    let mut i: usize = 1;
    proof {
        assert(acc@ =~= spec_join_with(views.subrange(0, 1), sep@));
    }
    while i < rs.len()
        invariant
            1 <= i <= rs@.len(),
            views == rs@.map_values(|s: String| s@),
            acc@ == spec_join_with(views.subrange(0, i as int), sep@),
        decreases rs@.len() - i,
    {
        acc.append(sep);
        acc.append(rs[i].as_str());
        proof {
            let pre = views.subrange(0, i + 1);
            assert(pre.drop_last() =~= views.subrange(0, i as int));
            assert(pre.last() == views[i as int]);
            assert(acc@ =~= spec_join_with(views.subrange(0, i + 1), sep@));
        }
        i = i + 1;
    }
    proof {
        assert(views.subrange(0, views.len() as int) =~= views);
    }
    acc
}

/// Join non-empty reason strings with `" & "`.
pub fn join_reasons(rs: &Vec<String>) -> (r: String)
    requires
        rs@.len() > 0,
    ensures
        r@ == spec_join_reasons(rs@.map_values(|s: String| s@)),
{
    join_with(rs, " & ")
}

} // verus!
