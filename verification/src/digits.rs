//! Decimal rendering of task ids and record fields, with the injectivity
//! proof that artifact-name collision-freedom rests on: distinct numbers
//! render to distinct digit strings.

use vstd::prelude::*;
use vstd::string::StringExecFns;

verus! {

/// The character for one decimal digit.
pub open spec fn digit_char(d: int) -> char {
    if d == 0 {
        '0'
    } else if d == 1 {
        '1'
    } else if d == 2 {
        '2'
    } else if d == 3 {
        '3'
    } else if d == 4 {
        '4'
    } else if d == 5 {
        '5'
    } else if d == 6 {
        '6'
    } else if d == 7 {
        '7'
    } else if d == 8 {
        '8'
    } else {
        '9'
    }
}

/// The decimal rendering of a non-negative number, most significant
/// digit first, with no leading zero except for the number zero itself.
pub open spec fn spec_digits(n: int) -> Seq<char>
    decreases n,
{
    if n < 10 {
        seq![digit_char(n)]
    } else {
        spec_digits(n / 10).push(digit_char(n % 10))
    }
}

/// Renders one digit.
fn digit_str(d: u64) -> (r: &'static str)
    requires
        d < 10,
    ensures
        r@ == seq![digit_char(d as int)],
{
    proof {
        reveal_strlit("0");
        reveal_strlit("1");
        reveal_strlit("2");
        reveal_strlit("3");
        reveal_strlit("4");
        reveal_strlit("5");
        reveal_strlit("6");
        reveal_strlit("7");
        reveal_strlit("8");
        reveal_strlit("9");
    }
    let r: &'static str = if d == 0 {
        "0"
    } else if d == 1 {
        "1"
    } else if d == 2 {
        "2"
    } else if d == 3 {
        "3"
    } else if d == 4 {
        "4"
    } else if d == 5 {
        "5"
    } else if d == 6 {
        "6"
    } else if d == 7 {
        "7"
    } else if d == 8 {
        "8"
    } else {
        "9"
    };
    proof {
        assert(r@ =~= seq![digit_char(d as int)]);
    }
    r
}

/// Renders a number in decimal.
pub fn u64_to_string(n: u64) -> (r: String)
    ensures
        r@ == spec_digits(n as int),
    decreases n,
{
    if n < 10 {
        let s = digit_str(n).to_owned();
        s
    } else {
        let mut s = u64_to_string(n / 10);
        let d = digit_str(n % 10);
        s.append(d);
        proof {
            assert(s@ =~= spec_digits(n as int));
        }
        s
    }
}

/// A decimal rendering is never empty, and has at least two digits for
/// numbers of ten and above.
pub proof fn lemma_spec_digits_len(n: int)
    requires
        n >= 0,
    ensures
        spec_digits(n).len() >= 1,
        n >= 10 ==> spec_digits(n).len() >= 2,
    decreases n,
{
    if n >= 10 {
        lemma_spec_digits_len(n / 10);
    }
}

proof fn lemma_digit_char_injective(a: int, b: int)
    requires
        0 <= a < 10,
        0 <= b < 10,
        digit_char(a) == digit_char(b),
    ensures
        a == b,
{
}

/// Distinct non-negative numbers render to distinct digit strings.
pub proof fn lemma_spec_digits_injective(a: int, b: int)
    requires
        a >= 0,
        b >= 0,
        spec_digits(a) == spec_digits(b),
    ensures
        a == b,
    decreases a,
{
    if a < 10 && b < 10 {
        assert(spec_digits(a) == seq![digit_char(a)]);
        assert(spec_digits(b) == seq![digit_char(b)]);
        assert(seq![digit_char(a)][0] == digit_char(a));
        assert(seq![digit_char(b)][0] == digit_char(b));
        assert(spec_digits(a)[0] == spec_digits(b)[0]);
        lemma_digit_char_injective(a, b);
    } else if a < 10 {
        lemma_spec_digits_len(b / 10);
        assert(spec_digits(b).len() >= 2);
        assert(spec_digits(a).len() == 1);
    } else if b < 10 {
        lemma_spec_digits_len(a / 10);
        assert(spec_digits(a).len() >= 2);
        assert(spec_digits(b).len() == 1);
    } else {
        let sa = spec_digits(a / 10);
        let sb = spec_digits(b / 10);
        let ca = digit_char(a % 10);
        let cb = digit_char(b % 10);
        assert(sa.push(ca) == sb.push(cb));
        assert(sa.push(ca).len() == sa.len() + 1);
        assert(sa.len() == sb.len());
        assert(sa.push(ca)[sa.len() as int] == ca);
        assert(sb.push(cb)[sb.len() as int] == cb);
        assert(ca == cb);
        lemma_digit_char_injective(a % 10, b % 10);
        assert forall|i: int| 0 <= i < sa.len() implies sa[i] == sb[i] by {
            assert(sa.push(ca)[i] == sa[i]);
            assert(sb.push(cb)[i] == sb[i]);
        }
        assert(sa =~= sb);
        lemma_spec_digits_injective(a / 10, b / 10);
        assert(a == (a / 10) * 10 + a % 10);
        assert(b == (b / 10) * 10 + b % 10);
    }
}

} // verus!
