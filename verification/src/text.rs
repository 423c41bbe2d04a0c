//! Text: the order of strings, prefixes, and the decimal notation of integers.
use vstd::prelude::*;
use vstd::string::StrSliceExecFns;
use vstd::string::StringExecFns;

verus! {

/// Whether `a` stands before `b` in the order of strings: character by character, by
/// code point, a proper prefix before the longer string.
pub open spec fn text_lt(a: Seq<char>, b: Seq<char>) -> bool
    decreases a.len(),
{
    if b.len() == 0 {
        false
    } else if a.len() == 0 {
        true
    } else if a[0] == b[0] {
        text_lt(a.drop_first(), b.drop_first())
    } else {
        a[0] < b[0]
    }
}

/// No string stands before itself.
pub proof fn lemma_text_lt_irreflexive(a: Seq<char>)
    ensures
        !text_lt(a, a),
    decreases a.len(),
{
    if a.len() > 0 {
        lemma_text_lt_irreflexive(a.drop_first());
    }
}

/// The order of strings is transitive.
pub proof fn lemma_text_lt_transitive(a: Seq<char>, b: Seq<char>, c: Seq<char>)
    requires
        text_lt(a, b),
        text_lt(b, c),
    ensures
        text_lt(a, c),
    decreases a.len(),
{
    if a.len() > 0 && a[0] == b[0] && b[0] == c[0] {
        lemma_text_lt_transitive(a.drop_first(), b.drop_first(), c.drop_first());
    }
}

/// Of two different strings, one stands before the other.
pub proof fn lemma_text_lt_total(a: Seq<char>, b: Seq<char>)
    ensures
        a == b || text_lt(a, b) || text_lt(b, a),
    decreases a.len(),
{
    if a.len() == 0 || b.len() == 0 {
        assert(a.len() == b.len() ==> a =~= b);
    } else if a[0] == b[0] {
        lemma_text_lt_total(a.drop_first(), b.drop_first());
        if a.drop_first() == b.drop_first() {
            assert(a =~= seq![a[0]] + a.drop_first());
            assert(b =~= seq![b[0]] + b.drop_first());
        }
    }
}

/// If two strings agree up to place `i`, and there the first has come to its end or has the
/// lesser character, it stands before the second.
proof fn lemma_text_lt_at(a: Seq<char>, b: Seq<char>, i: int)
    requires
        0 <= i <= a.len(),
        i < b.len(),
        a.take(i) == b.take(i),
        i == a.len() || a[i] < b[i],
    ensures
        text_lt(a, b),
    decreases a.len(),
{
    if i > 0 {
        assert(a.take(i)[0] == a[0]);
        assert(b.take(i)[0] == b[0]);
        assert(a.drop_first().take(i - 1) =~= a.take(i).drop_first());
        assert(b.drop_first().take(i - 1) =~= b.take(i).drop_first());
        lemma_text_lt_at(a.drop_first(), b.drop_first(), i - 1);
    }
}

/// The place at which a string turns out to stand before another.
proof fn lemma_text_lt_place(a: Seq<char>, b: Seq<char>) -> (i: int)
    requires
        text_lt(a, b),
    ensures
        0 <= i <= a.len(),
        i < b.len(),
        a.take(i) == b.take(i),
        i == a.len() || a[i] < b[i],
    decreases a.len(),
{
    if a.len() > 0 && a[0] == b[0] {
        let i = lemma_text_lt_place(a.drop_first(), b.drop_first());
        assert(a.take(i + 1) =~= seq![a[0]] + a.drop_first().take(i));
        assert(b.take(i + 1) =~= seq![b[0]] + b.drop_first().take(i));
        i + 1
    } else {
        assert(a.take(0) =~= b.take(0));
        0
    }
}

/// One string stands before another exactly if they agree up to some place, and there the
/// first has come to its end or has the character with the lesser code point.
pub proof fn law_text_order(a: Seq<char>, b: Seq<char>)
    ensures
        text_lt(a, b) <==> exists|i: int|
            0 <= i <= a.len() && i < b.len() && #[trigger] a.take(i) == b.take(i) && (i == a.len() || a[i] < b[i]),
{
    if text_lt(a, b) {
        let i = lemma_text_lt_place(a, b);
        assert(a.take(i) == b.take(i));
    }
    assert forall|i: int|
        0 <= i <= a.len() && i < b.len() && #[trigger] a.take(i) == b.take(i) && (i == a.len() || a[i]
            < b[i]) implies text_lt(a, b) by {
        lemma_text_lt_at(a, b, i);
    }
}

/// Whether `a` stands before `b` in the order of strings.
pub fn text_before(a: &str, b: &str) -> (before: bool)
    ensures
        before == text_lt(a@, b@),
{
    let mut left = a.chars();
    let mut right = b.chars();
    let ghost mut rest_a = a@;
    let ghost mut rest_b = b@;
    loop
        invariant
            vstd::std_specs::iter::IteratorSpec::remaining(&left) == rest_a,
            vstd::std_specs::iter::IteratorSpec::remaining(&right) == rest_b,
            text_lt(a@, b@) == text_lt(rest_a, rest_b),
        decreases rest_a.len(),
    {
        let x = left.next();
        let y = right.next();
        match (x, y) {
            (_, None) => {
                return false;
            },
            (None, Some(_)) => {
                return true;
            },
            (Some(c), Some(d)) => {
                if c != d {
                    return c < d;
                }
            },
        }
        proof {
            rest_a = rest_a.drop_first();
            rest_b = rest_b.drop_first();
        }
    }
}

/// Whether `text` starts with `prefix`.
pub fn has_prefix(text: &str, prefix: &str) -> (found: bool)
    ensures
        found == prefix@.is_prefix_of(text@),
{
    let mut whole = text.chars();
    let mut part = prefix.chars();
    let ghost mut n: int = 0;
    assert(text@.skip(0) =~= text@);
    assert(prefix@.skip(0) =~= prefix@);
    loop
        invariant
            0 <= n <= prefix@.len(),
            n <= text@.len(),
            vstd::std_specs::iter::IteratorSpec::remaining(&whole) == text@.skip(n),
            vstd::std_specs::iter::IteratorSpec::remaining(&part) == prefix@.skip(n),
            forall|i: int| 0 <= i < n ==> text@[i] == prefix@[i],
        decreases prefix@.len() - n,
    {
        let c = part.next();
        let d = whole.next();
        match (c, d) {
            (None, _) => {
                assert(prefix@ =~= text@.subrange(0, prefix@.len() as int));
                return true;
            },
            (Some(_), None) => {
                return false;
            },
            (Some(c), Some(d)) => {
                if c != d {
                    assert(prefix@[n] != text@[n]);
                    return false;
                }
            },
        }
        proof {
            assert(text@.skip(n).drop_first() =~= text@.skip(n + 1));
            assert(prefix@.skip(n).drop_first() =~= prefix@.skip(n + 1));
            n = n + 1;
        }
    }
}

/// The decimal digit of value `d`.
pub open spec fn digit(d: nat) -> char
    recommends
        d < 10,
{
    ('0' as u32 + d) as char
}

/// The decimal notation of `n`, without leading zeros.
pub open spec fn decimal(n: nat) -> Seq<char>
    decreases n,
{
    if n < 10 {
        seq![digit(n)]
    } else {
        decimal(n / 10).push(digit(n % 10))
    }
}

/// The decimal notation of an integer, with a minus sign in front of a negative one.
pub open spec fn integer_text(n: int) -> Seq<char> {
    if n < 0 {
        seq!['-'] + decimal((-n) as nat)
    } else {
        decimal(n as nat)
    }
}

/// Below ten, a number is written as its digit. From there on, what is ten times a number
/// and a digit more is written as that number with the digit behind it.
pub proof fn law_decimal(n: nat, d: nat)
    requires
        d < 10,
    ensures
        decimal(d) == seq!["0123456789"@[d as int]],
        n > 0 ==> decimal(10 * n + d) == decimal(n).push("0123456789"@[d as int]),
{
    reveal_strlit("0123456789");
    assert((10 * n + d) / 10 == n);
    assert((10 * n + d) % 10 == d);
}

/// A negative number is written as its opposite with a minus sign in front.
pub proof fn law_integer_text(n: nat)
    ensures
        integer_text(n as int) == decimal(n),
        n > 0 ==> integer_text(-n) == "-"@ + decimal(n),
{
    reveal_strlit("-");
    assert("-"@ =~= seq!['-']);
}

/// Decimal notation consists of digits.
pub proof fn lemma_decimal_digits(n: nat)
    ensures
        decimal(n).len() > 0,
        forall|i: int| 0 <= i < decimal(n).len() ==> '0' <= #[trigger] decimal(n)[i] <= '9',
    decreases n,
{
    if n >= 10 {
        lemma_decimal_digits(n / 10);
    }
}

/// Different numbers have different decimal notations.
pub proof fn lemma_decimal_injective(m: nat, n: nat)
    requires
        decimal(m) == decimal(n),
    ensures
        m == n,
    decreases m,
{
    lemma_decimal_digits(m / 10);
    lemma_decimal_digits(n / 10);
    let a = decimal(m);
    let b = decimal(n);
    if m < 10 {
        assert(a.len() == 1);
        assert(n < 10);
        assert(a[0] == digit(m));
        assert(b[0] == digit(n));
    } else {
        assert(a.len() > 1);
        assert(n >= 10);
        assert(a.last() == digit(m % 10));
        assert(b.last() == digit(n % 10));
        assert(a.drop_last() =~= decimal(m / 10));
        assert(b.drop_last() =~= decimal(n / 10));
        lemma_decimal_injective(m / 10, n / 10);
    }
}

fn digit_str(d: u64) -> (s: &'static str)
    requires
        d < 10,
    ensures
        s@ == seq![digit(d as nat)],
{
    proof {
        reveal_strlit("0");
        reveal_strlit("1");
        reveal_strlit("2");
        reveal_strlit("3");
        reveal_strlit("4");
        reveal_strlit("5");
        reveal_strlit("6");
        reveal_strlit("7");
        reveal_strlit("8");
        reveal_strlit("9");
    }
    match d {
        0 => "0",
        1 => "1",
        2 => "2",
        3 => "3",
        4 => "4",
        5 => "5",
        6 => "6",
        7 => "7",
        8 => "8",
        _ => "9",
    }
}

/// Writes `n` in decimal.
pub fn write_decimal(n: u64) -> (s: String)
    ensures
        s@ == decimal(n as nat),
    decreases n,
{
    if n < 10 {
        digit_str(n).to_string()
    } else {
        let mut s = write_decimal(n / 10);
        s.append(digit_str(n % 10));
        proof {
            assert(s@ =~= decimal(n as nat));
        }
        s
    }
}

/// Writes `n` in decimal, with a minus sign in front of a negative number.
pub fn write_integer(n: i64) -> (s: String)
    ensures
        s@ == integer_text(n as int),
{
    if n < 0 {
        let magnitude: u64 = (-(n + 1)) as u64 + 1;
        let mut s = "-".to_string();
        s.append(write_decimal(magnitude).as_str());
        proof {
            reveal_strlit("-");
            assert(s@ =~= integer_text(n as int));
        }
        s
    } else {
        write_decimal(n as u64)
    }
}

} // verus!
