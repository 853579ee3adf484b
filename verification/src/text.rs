//! Character-level text rules shared by titles, file names and shelf names:
//! what counts as white space, how a string is trimmed, and how a counter is
//! written in decimal digits.

use vstd::prelude::*;
use vstd::string::*;

verus! {

/// The texts of a list of strings.
pub open spec fn texts(v: Seq<String>) -> Seq<Seq<char>> {
    v.map_values(|s: String| s@)
}

// White space and trimming.

/// Whether `c` carries the Unicode property White_Space.
pub open spec fn is_white_space(c: char) -> bool {
    let u = c as u32;
    (0x09 <= u <= 0x0D) || u == 0x20 || u == 0x85 || u == 0xA0 || u == 0x1680 || (0x2000 <= u
        <= 0x200A) || u == 0x2028 || u == 0x2029 || u == 0x202F || u == 0x205F || u == 0x3000
}

/// Number of white-space characters at the front of `s`.
pub open spec fn leading_space(s: Seq<char>) -> nat
    decreases s.len(),
{
    if s.len() > 0 && is_white_space(s[0]) {
        1 + leading_space(s.drop_first())
    } else {
        0
    }
}

/// Number of white-space characters at the back of `s`.
pub open spec fn trailing_space(s: Seq<char>) -> nat
    decreases s.len(),
{
    if s.len() > 0 && is_white_space(s.last()) {
        1 + trailing_space(s.drop_last())
    } else {
        0
    }
}

/// `s` without the white space at its front and at its back.
pub open spec fn trimmed(s: Seq<char>) -> Seq<char> {
    if leading_space(s) >= s.len() {
        Seq::empty()
    } else {
        s.subrange(leading_space(s) as int, s.len() - trailing_space(s))
    }
}

// Decimal digits.

/// The decimal digit that stands for `d`, for `d` below ten.
pub open spec fn digit_char(d: nat) -> char {
    if d == 0 {
        '0'
    } else if d == 1 {
        '1'
    } else if d == 2 {
        '2'
    } else if d == 3 {
        '3'
    } else if d == 4 {
        '4'
    } else if d == 5 {
        '5'
    } else if d == 6 {
        '6'
    } else if d == 7 {
        '7'
    } else if d == 8 {
        '8'
    } else {
        '9'
    }
}

/// The number that a decimal digit stands for; zero for any other character.
pub open spec fn digit_value(c: char) -> nat {
    if c == '1' {
        1
    } else if c == '2' {
        2
    } else if c == '3' {
        3
    } else if c == '4' {
        4
    } else if c == '5' {
        5
    } else if c == '6' {
        6
    } else if c == '7' {
        7
    } else if c == '8' {
        8
    } else if c == '9' {
        9
    } else {
        0
    }
}

/// `n` written in decimal digits, most significant first, without leading zeros.
pub open spec fn decimal(n: nat) -> Seq<char>
    decreases n,
{
    if n < 10 {
        seq![digit_char(n)]
    } else {
        decimal(n / 10).push(digit_char(n % 10))
    }
}

/// The number that a string of decimal digits stands for.
pub open spec fn decimal_value(s: Seq<char>) -> nat
    decreases s.len(),
{
    if s.len() == 0 {
        0
    } else {
        10 * decimal_value(s.drop_last()) + digit_value(s.last())
    }
}

// The operations.

/// Whether `c` carries the Unicode property White_Space.
pub fn is_whitespace(c: char) -> (r: bool)
    ensures
        r == is_white_space(c),
{
    let u: u32 = c as u32;
    (0x09 <= u && u <= 0x0D) || u == 0x20 || u == 0x85 || u == 0xA0 || u == 0x1680 || (0x2000 <= u
        && u <= 0x200A) || u == 0x2028 || u == 0x2029 || u == 0x202F || u == 0x205F || u == 0x3000
}

/// The characters of `s`, one by one.
pub fn chars_of(s: &str) -> (r: Vec<char>)
    ensures
        r@ == s@,
{
    broadcast use vstd::string::group_string_axioms;

    let mut out: Vec<char> = Vec::new();
    for c in it: s.chars()
        invariant
            it.seq() == s@,
            out@ == it.seq().subrange(0, it.index()),
    {
        out.push(c);
    }
    assert(out@ =~= s@);
    out
}

/// `s` without the white space at its front and at its back.
pub fn trim(s: &str) -> (r: &str)
    ensures
        r@ == trimmed(s@),
{
    let chars = chars_of(s);
    let n: usize = chars.len();
    let mut start: usize = 0;
    while start < n && is_whitespace(chars[start])
        invariant
            n == chars@.len(),
            start <= n,
            forall|i: int| 0 <= i < start ==> is_white_space(#[trigger] chars@[i]),
        decreases n - start,
    {
        start += 1;
    }
    proof {
        lemma_leading_space(chars@, start as int);
    }
    if start == n {
        return s.substring_char(0, 0);
    }
    let mut end: usize = n;
    while end > start && is_whitespace(chars[end - 1])
        invariant
            n == chars@.len(),
            start <= end <= n,
            forall|i: int| end <= i < n ==> is_white_space(#[trigger] chars@[i]),
        decreases end,
    {
        end -= 1;
    }
    proof {
        if end == start {
            // The run from the back cannot pass the character at `start`.
            assert(!is_white_space(chars@[start as int]));
            assert(false);
        }
        lemma_trailing_space(chars@, end as int);
    }
    s.substring_char(start, end)
}

/// The text of one decimal digit.
fn digit_str(d: u64) -> (r: &'static str)
    requires
        d < 10,
    ensures
        r@ == seq![digit_char(d as nat)],
{
    proof {
        reveal_strlit("0");
        reveal_strlit("1");
        reveal_strlit("2");
        reveal_strlit("3");
        reveal_strlit("4");
        reveal_strlit("5");
        reveal_strlit("6");
        reveal_strlit("7");
        reveal_strlit("8");
        reveal_strlit("9");
    }
    let r = if d == 0 {
        "0"
    } else if d == 1 {
        "1"
    } else if d == 2 {
        "2"
    } else if d == 3 {
        "3"
    } else if d == 4 {
        "4"
    } else if d == 5 {
        "5"
    } else if d == 6 {
        "6"
    } else if d == 7 {
        "7"
    } else if d == 8 {
        "8"
    } else {
        "9"
    };
    assert(r@ =~= seq![digit_char(d as nat)]);
    r
}

/// Appends the decimal digits of `n` to `out`.
pub fn push_decimal(out: &mut String, n: u64)
    ensures
        final(out)@ == old(out)@ + decimal(n as nat),
    decreases n,
{
    if n >= 10 {
        push_decimal(out, n / 10);
    }
    let ghost before = out@;
    out.append(digit_str(n % 10));
    proof {
        if n >= 10 {
            assert(out@ =~= old(out)@ + decimal(n as nat));
        } else {
            assert(out@ =~= old(out)@ + decimal(n as nat));
        }
    }
}

// Lemmas.

/// The front of `s` is white space up to `a`, and `s[a]` is not, or `s` ends there.
pub proof fn lemma_leading_space(s: Seq<char>, a: int)
    requires
        0 <= a <= s.len(),
        forall|i: int| 0 <= i < a ==> is_white_space(#[trigger] s[i]),
        a < s.len() ==> !is_white_space(s[a]),
    ensures
        leading_space(s) == a,
    decreases a,
{
    if a > 0 {
        let rest = s.drop_first();
        assert forall|i: int| 0 <= i < a - 1 implies is_white_space(#[trigger] rest[i]) by {
            assert(rest[i] == s[i + 1]);
        }
        lemma_leading_space(rest, a - 1);
    }
}

/// The back of `s` is white space from `b` on, and `s[b - 1]` is not, or `s` starts there.
pub proof fn lemma_trailing_space(s: Seq<char>, b: int)
    requires
        0 <= b <= s.len(),
        forall|i: int| b <= i < s.len() ==> is_white_space(#[trigger] s[i]),
        0 < b ==> !is_white_space(s[b - 1]),
    ensures
        trailing_space(s) == s.len() - b,
    decreases s.len() - b,
{
    if b < s.len() {
        let rest = s.drop_last();
        assert forall|i: int| b <= i < rest.len() implies is_white_space(#[trigger] rest[i]) by {
            assert(rest[i] == s[i]);
        }
        lemma_trailing_space(rest, b);
    }
}

/// What `leading_space` counts is white space, and the character after it is not.
pub proof fn lemma_leading_space_bounds(s: Seq<char>)
    ensures
        leading_space(s) <= s.len(),
        forall|i: int| 0 <= i < leading_space(s) ==> is_white_space(#[trigger] s[i]),
        leading_space(s) < s.len() ==> !is_white_space(s[leading_space(s) as int]),
    decreases s.len(),
{
    if s.len() > 0 && is_white_space(s[0]) {
        let rest = s.drop_first();
        lemma_leading_space_bounds(rest);
        assert forall|i: int| 0 <= i < leading_space(s) implies is_white_space(#[trigger] s[i]) by {
            if i > 0 {
                assert(s[i] == rest[i - 1]);
            }
        }
        if leading_space(s) < s.len() {
            assert(s[leading_space(s) as int] == rest[leading_space(rest) as int]);
        }
    }
}

/// What `trailing_space` counts is white space, and the character before it is not.
pub proof fn lemma_trailing_space_bounds(s: Seq<char>)
    ensures
        trailing_space(s) <= s.len(),
        forall|i: int| s.len() - trailing_space(s) <= i < s.len() ==> is_white_space(#[trigger] s[i]),
        trailing_space(s) < s.len() ==> !is_white_space(s[s.len() - trailing_space(s) - 1]),
    decreases s.len(),
{
    if s.len() > 0 && is_white_space(s.last()) {
        let rest = s.drop_last();
        lemma_trailing_space_bounds(rest);
        assert forall|i: int| s.len() - trailing_space(s) <= i < s.len() implies is_white_space(
            #[trigger] s[i],
        ) by {
            if i < s.len() - 1 {
                assert(s[i] == rest[i]);
            }
        }
        if trailing_space(s) < s.len() {
            assert(s[s.len() - trailing_space(s) - 1] == rest[rest.len() - trailing_space(rest) - 1]);
        }
    }
}

/// A trimmed string neither starts nor ends with white space, and trimming it
/// again changes nothing.
pub proof fn lemma_trimmed_is_tight(s: Seq<char>)
    ensures
        trimmed(s).len() > 0 ==> !is_white_space(trimmed(s)[0]) && !is_white_space(
            trimmed(s).last(),
        ),
        trimmed(trimmed(s)) == trimmed(s),
{
    lemma_leading_space_bounds(s);
    lemma_trailing_space_bounds(s);
    let t = trimmed(s);
    if leading_space(s) < s.len() {
        let a = leading_space(s) as int;
        let b = s.len() - trailing_space(s);
        // A character that is no white space stands at `a`, so the back run stops after it.
        if b <= a {
            assert(is_white_space(s[a]));
        }
        assert(a < b);
        assert(t[0] == s[a]);
        assert(t.last() == s[b - 1]);
        lemma_leading_space(t, 0);
        lemma_trailing_space(t, t.len() as int);
        assert(t.subrange(0, t.len() as int) =~= t);
    } else {
        assert(t.len() == 0);
        assert(leading_space(t) == 0);
    }
}

/// A string that neither starts nor ends with white space is its own trimmed form.
pub proof fn lemma_tight_is_trimmed(s: Seq<char>)
    requires
        s.len() > 0,
        !is_white_space(s[0]),
        !is_white_space(s.last()),
    ensures
        trimmed(s) == s,
{
    lemma_leading_space(s, 0);
    lemma_trailing_space(s, s.len() as int);
    assert(s.subrange(0, s.len() as int) =~= s);
}

/// Reading the digits of `decimal(n)` gives `n` back.
pub proof fn lemma_decimal_value(n: nat)
    ensures
        decimal_value(decimal(n)) == n,
    decreases n,
{
    if n < 10 {
        let s = decimal(n);
        assert(s.drop_last() =~= Seq::<char>::empty());
        assert(decimal_value(s.drop_last()) == 0);
    } else {
        lemma_decimal_value(n / 10);
        let s = decimal(n);
        assert(s.drop_last() =~= decimal(n / 10));
        assert(digit_value(s.last()) == n % 10);
    }
}

/// Two numbers with the same decimal digits are the same number.
pub proof fn lemma_decimal_injective(a: nat, b: nat)
    requires
        decimal(a) == decimal(b),
    ensures
        a == b,
{
    lemma_decimal_value(a);
    lemma_decimal_value(b);
}

/// `decimal(n)` is never empty and holds decimal digits only.
pub proof fn lemma_decimal_digits(n: nat)
    ensures
        decimal(n).len() > 0,
        forall|i: int|
            0 <= i < decimal(n).len() ==> '0' <= (#[trigger] decimal(n)[i]) <= '9',
    decreases n,
{
    if n >= 10 {
        lemma_decimal_digits(n / 10);
    }
}

} // verus!
