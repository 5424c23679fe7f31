//! Small tools for characters and strings.
use vstd::prelude::*;
use vstd::std_specs::iter::IteratorSpec;
use crate::lexis::{decimal_value, digit};

verus! {

/// The text `s`, `t` times in a row.
pub open spec fn repeat(s: Seq<char>, t: nat) -> Seq<char>
    decreases t,
{
    if t == 0 {
        Seq::empty()
    } else {
        repeat(s, (t - 1) as nat) + s
    }
}

/// The length of a text that is repeated.
pub proof fn lemma_repeat_len(s: Seq<char>, n: nat)
    ensures
        repeat(s, n).len() == n * s.len(),
    decreases n,
{
    if n > 0 {
        lemma_repeat_len(s, (n - 1) as nat);
        assert(n * s.len() == (n - 1) * s.len() + s.len()) by (nonlinear_arith);
    } else {
        assert(0 * s.len() == 0);
    }
}

/// A text repeated once more is the text before its repetitions, as well as behind them.
pub proof fn lemma_repeat_front(s: Seq<char>, n: nat)
    ensures
        repeat(s, n + 1) == s + repeat(s, n),
    decreases n,
{
    reveal_with_fuel(repeat, 2);
    if n == 0 {
    } else {
        lemma_repeat_front(s, (n - 1) as nat);
    }
}

/// The character that writes the digit `d`.
pub open spec fn digit_char(d: nat) -> char {
    ('0' as nat + d) as char
}

/// The decimal digits of `n`, without leading zeros.
pub open spec fn decimal(n: nat) -> Seq<char>
    decreases n,
{
    if n < 10 {
        seq![digit_char(n)]
    } else {
        decimal(n / 10) + seq![digit_char(n % 10)]
    }
}

/// The decimal text of `n`, with a `-` before it if `n` is negative.
pub open spec fn integer_text(n: int) -> Seq<char> {
    if n < 0 {
        seq!['-'] + decimal((-n) as nat)
    } else {
        decimal(n as nat)
    }
}

/// The decimal digits of a number are digits, at least one, and write that number.
pub proof fn lemma_decimal(n: nat)
    ensures
        decimal(n).len() >= 1,
        forall|j: int| 0 <= j < decimal(n).len() ==> digit(#[trigger] decimal(n)[j]),
        decimal_value(decimal(n)) == n,
    decreases n,
{
    if n < 10 {
        let s = seq![digit_char(n)];
        assert(decimal_value(s.drop_last()) == 0);
    } else {
        lemma_decimal(n / 10);
        let s = decimal(n / 10) + seq![digit_char(n % 10)];
        assert(s.drop_last() =~= decimal(n / 10));
    }
}

/// Whether the text `s` stands in the text `t` at index `i`.
pub open spec fn occurs_at(t: Seq<char>, i: int, s: Seq<char>) -> bool {
    0 <= i && i + s.len() <= t.len() && t.subrange(i, i + s.len()) == s
}

/// Where a text stands, its characters stand.
pub proof fn lemma_occurs_chars(t: Seq<char>, i: int, s: Seq<char>)
    requires
        occurs_at(t, i, s),
    ensures
        forall|j: int| 0 <= j < s.len() ==> #[trigger] t[i + j] == s[j],
{
    assert forall|j: int| 0 <= j < s.len() implies #[trigger] t[i + j] == s[j] by {
    }
}

/// Where a text made of two stands, the first stands, and the second behind it.
pub proof fn lemma_occurs_parts(t: Seq<char>, i: int, a: Seq<char>, b: Seq<char>)
    requires
        occurs_at(t, i, a + b),
    ensures
        occurs_at(t, i, a),
        occurs_at(t, i + a.len(), b),
{
    lemma_occurs_chars(t, i, a + b);
    assert forall|j: int| 0 <= j < a.len() implies t.subrange(i, i + a.len())[j] == a[j] by {
    }
    assert(t.subrange(i, i + a.len()) =~= a);
    assert forall|j: int| 0 <= j < b.len() implies t.subrange(
        i + a.len(),
        i + a.len() + b.len(),
    )[j] == b[j] by {
        assert(t[i + (a.len() + j)] == (a + b)[a.len() + j]);
    }
    assert(t.subrange(i + a.len(), i + a.len() + b.len()) =~= b);
}

/// Appending a text that is itself made of two is appending the one and then the other.
pub proof fn lemma_append_twice(a: Seq<char>, b: Seq<char>, c: Seq<char>)
    ensures
        a + (b + c) == (a + b) + c,
{
}

/// Appending three texts one after the other is appending the three of them joined.
pub proof fn lemma_append_3(x: Seq<char>, a: Seq<char>, b: Seq<char>, c: Seq<char>)
    ensures
        x + a + b + c == x + (a + b + c),
{
    assert(x + a + b + c =~= x + (a + b + c));
}

/// Appending four texts one after the other is appending the four of them joined.
pub proof fn lemma_append_4(x: Seq<char>, a: Seq<char>, b: Seq<char>, c: Seq<char>, d: Seq<char>)
    ensures
        x + a + b + c + d == x + (a + b + c + d),
{
    assert(x + a + b + c + d =~= x + (a + b + c + d));
}

/// Appending five texts one after the other is appending the five of them joined.
pub proof fn lemma_append_5(
    x: Seq<char>,
    a: Seq<char>,
    b: Seq<char>,
    c: Seq<char>,
    d: Seq<char>,
    e: Seq<char>,
)
    ensures
        x + a + b + c + d + e == x + (a + b + c + d + e),
{
}

/// Appending ten texts one after the other is appending the ten of them joined.
pub proof fn lemma_append_10(
    x: Seq<char>,
    a: Seq<char>,
    b: Seq<char>,
    c: Seq<char>,
    d: Seq<char>,
    e: Seq<char>,
    f: Seq<char>,
    g: Seq<char>,
    h: Seq<char>,
    i: Seq<char>,
    j: Seq<char>,
)
    ensures
        x + a + b + c + d + e + f + g + h + i + j == x + (a + b + c + d + e + f + g + h + i + j),
{
    lemma_append_5(x, a, b, c, d, e);
    lemma_append_5(x + (a + b + c + d + e), f, g, h, i, j);
    lemma_append_5(a + b + c + d + e, f, g, h, i, j);
    lemma_append_twice(x, a + b + c + d + e, f + g + h + i + j);
}

/// Appends `c` to `s`, by `String::push`, which adds the one character at the end
/// of the string and leaves the characters before it as they are.
#[verifier::external_body]
pub(crate) fn push_char(s: &mut String, c: char)
    ensures
        final(s)@ == old(s)@.push(c),
{
    s.push(c)
}

/// Whether `a` and `b` hold the same characters.
pub fn same_text(a: &str, b: &str) -> (same: bool)
    ensures
        same == (a@ == b@),
{
    broadcast use vstd::string::group_string_axioms;

    let mut left = a.chars();
    let mut right = b.chars();
    let ghost mut done: int = 0;
    loop
        invariant
            0 <= done <= a@.len(),
            done <= b@.len(),
            left.remaining() == a@.skip(done),
            right.remaining() == b@.skip(done),
            a@.take(done) == b@.take(done),
            left.obeys_prophetic_iter_laws(),
            right.obeys_prophetic_iter_laws(),
        decreases a@.len() - done,
    {
        let x = left.next();
        let y = right.next();
        match (x, y) {
            (None, None) => {
                assert(a@ == a@.take(done));
                assert(b@ == b@.take(done));
                return true;
            },
            (Some(c), Some(d)) => {
                if c != d {
                    return false;
                }
                proof {
                    done = done + 1;
                }
            },
            _ => {
                return false;
            },
        }
    }
}

/// The characters of `s`, one by one.
pub fn chars_of(s: &str) -> (v: Vec<char>)
    ensures
        v@ == s@,
{
    let mut v: Vec<char> = Vec::new();
    for c in it: s.chars()
        invariant
            it.seq() == s@,
            v@ == s@.take(it.index()),
    {
        v.push(c);
    }
    v
}

/// Appends the characters of `s` to `out`.
pub fn push_str(out: &mut Vec<char>, s: &str)
    ensures
        final(out)@ == old(out)@ + s@,
{
    let ghost before = out@;
    for c in it: s.chars()
        invariant
            it.seq() == s@,
            out@ == before + s@.take(it.index()),
    {
        out.push(c);
    }
}

/// Appends the characters `chars` to `out`.
pub fn push_chars(out: &mut Vec<char>, chars: &Vec<char>)
    ensures
        final(out)@ == old(out)@ + chars@,
{
    let ghost before = out@;
    let mut i: usize = 0;
    while i < chars.len()
        invariant
            i <= chars.len(),
            out@ == before + chars@.take(i as int),
        decreases chars.len() - i,
    {
        out.push(chars[i]);
        assert(chars@.take(i + 1) == chars@.take(i as int).push(chars@[i as int]));
        i = i + 1;
    }
    assert(chars@.take(chars@.len() as int) == chars@);
}

/// Appends `s` to `out`, `t` times.
pub fn replicate(out: &mut Vec<char>, s: &str, t: usize)
    ensures
        final(out)@ == old(out)@ + repeat(s@, t as nat),
{
    let ghost before = out@;
    let mut i: usize = 0;
    while i < t
        invariant
            i <= t,
            out@ == before + repeat(s@, i as nat),
        decreases t - i,
    {
        push_str(out, s);
        i = i + 1;
    }
}

/// The character that writes the digit `d`.
fn char_of_digit(d: u64) -> (c: char)
    requires
        d < 10,
    ensures
        c == digit_char(d as nat),
{
    (d as u8 + 48) as char
}

/// Appends the decimal digits of `n` to `out`.
pub fn push_decimal(out: &mut Vec<char>, n: u64)
    ensures
        final(out)@ == old(out)@ + decimal(n as nat),
    decreases n,
{
    if n >= 10 {
        push_decimal(out, n / 10);
    }
    out.push(char_of_digit(n % 10));
}

/// Appends the decimal text of `n` to `out`.
pub fn push_integer(out: &mut Vec<char>, n: i32)
    ensures
        final(out)@ == old(out)@ + integer_text(n as int),
{
    if n < 0 {
        out.push('-');
        push_decimal(out, (-(n as i64)) as u64);
    } else {
        push_decimal(out, n as u64);
    }
}

/// The string of the characters `chars`.
pub fn string_of(chars: &Vec<char>) -> (s: String)
    ensures
        s@ == chars@,
{
    let mut s = String::new();
    append_chars(&mut s, chars);
    s
}

/// Appends the characters `chars` to `s`.
pub fn append_chars(s: &mut String, chars: &Vec<char>)
    ensures
        final(s)@ == old(s)@ + chars@,
{
    let ghost before = s@;
    let mut i: usize = 0;
    while i < chars.len()
        invariant
            i <= chars.len(),
            s@ == before + chars@.take(i as int),
        decreases chars.len() - i,
    {
        push_char(s, chars[i]);
        i = i + 1;
    }
}

} // verus!
