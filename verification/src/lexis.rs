//! What the scanner computes, as functions of the source text.
//!
//! A position in the text is an index into its characters. [`token_at`] says which
//! token is found from a position on, and [`tokens_from`] lists all of them.
use vstd::prelude::*;
use crate::scanner::ScanState;
use crate::text::{
    integer_text, lemma_occurs_chars, lemma_occurs_parts, lemma_repeat_front, lemma_repeat_len,
    occurs_at, repeat,
};

verus! {

/// What a token is, without the place where it was found.
pub enum Lexeme {
    /// An integer literal and its value.
    Number(i32),
    /// A name.
    Ident(Seq<char>),
    /// A reserved word.
    Keyword(Seq<char>),
    /// An operator: a run of operator characters, or a word such as `and`.
    Operator(Seq<char>),
    /// `(`
    Lp,
    /// `)`
    Rp,
    /// `,`
    Comma,
    /// A character that begins no token.
    Error(char),
    /// The end of the text.
    Eof,
}

/// A token in words, for a message.
pub open spec fn lexeme_text(l: Lexeme) -> Seq<char> {
    match l {
        Lexeme::Number(n) => "the number "@ + integer_text(n as int),
        Lexeme::Ident(w) => "the name `"@ + w + "`"@,
        Lexeme::Keyword(w) => "the keyword `"@ + w + "`"@,
        Lexeme::Operator(w) => "the operator `"@ + w + "`"@,
        Lexeme::Lp => "`(`"@,
        Lexeme::Rp => "`)`"@,
        Lexeme::Comma => "`,`"@,
        Lexeme::Error(c) => "the character `"@ + seq![c] + "`"@,
        Lexeme::Eof => "the end of the source"@,
    }
}

/// The three kinds of characters of which a token of several characters is made.
pub enum CharClass {
    /// Letters and the underscore.
    Word,
    /// Decimal digits.
    Digit,
    /// Operator characters.
    Symbol,
}

/// The characters that separate tokens: those with the Unicode property `White_Space`.
pub open spec fn whitespace(c: char) -> bool {
    ||| '\u{9}' <= c <= '\u{d}'
    ||| c == ' '
    ||| c == '\u{85}'
    ||| c == '\u{a0}'
    ||| c == '\u{1680}'
    ||| '\u{2000}' <= c <= '\u{200a}'
    ||| c == '\u{2028}'
    ||| c == '\u{2029}'
    ||| c == '\u{202f}'
    ||| c == '\u{205f}'
    ||| c == '\u{3000}'
}

/// The characters of names and words: the letters `a` to `z`, `A` to `Z`, and `_`.
pub open spec fn ident_char(c: char) -> bool {
    'a' <= c <= 'z' || 'A' <= c <= 'Z' || c == '_'
}

/// The decimal digits.
pub open spec fn digit(c: char) -> bool {
    '0' <= c <= '9'
}

/// The characters of which symbolic operators are made. The parentheses are not
/// among them: each is a token of its own, so a run of operator characters ends
/// before a parenthesis.
pub open spec fn operator_char(c: char) -> bool {
    ||| c == '+'
    ||| c == '='
    ||| c == '-'
    ||| c == '*'
    ||| c == '/'
    ||| c == '<'
    ||| c == '>'
    ||| c == '~'
    ||| c == '|'
    ||| c == '&'
    ||| c == '!'
}

/// Whether `c` belongs to `class`.
pub open spec fn in_class(class: CharClass, c: char) -> bool {
    match class {
        CharClass::Word => ident_char(c),
        CharClass::Digit => digit(c),
        CharClass::Symbol => operator_char(c),
    }
}

/// The reserved words of the language.
pub open spec fn reserved_word(w: Seq<char>) -> bool {
    ||| w == "to"@
    ||| w == "with"@
    ||| w == "is"@
    ||| w == "return"@
    ||| w == "do"@
    ||| w == "end"@
    ||| w == "if"@
    ||| w == "then"@
    ||| w == "else"@
    ||| w == "let"@
    ||| w == "be"@
    ||| w == "forever"@
    ||| w == "while"@
    ||| w == "for"@
    ||| w == "each"@
    ||| w == "in"@
    ||| w == "set"@
    ||| w == "through"@
    ||| w == "change"@
    ||| w == "by"@
    ||| w == "variable"@
}

/// The operators that are spelled as words.
pub open spec fn operator_word(w: Seq<char>) -> bool {
    w == "and"@ || w == "or"@ || w == "not"@ || w == "modulo"@
}

/// The token that a word is: a keyword if the word is reserved, else an operator if
/// it names one, else a name.
pub open spec fn classify_word(w: Seq<char>) -> Lexeme {
    if reserved_word(w) {
        Lexeme::Keyword(w)
    } else if operator_word(w) {
        Lexeme::Operator(w)
    } else {
        Lexeme::Ident(w)
    }
}

/// The value of a decimal digit.
pub open spec fn digit_value(c: char) -> nat {
    (c as nat - '0' as nat) as nat
}

/// The number that a run of decimal digits writes.
pub open spec fn decimal_value(digits: Seq<char>) -> nat
    decreases digits.len(),
{
    if digits.len() == 0 {
        0
    } else {
        10 * decimal_value(digits.drop_last()) + digit_value(digits.last())
    }
}

/// The token that a run of digits is: a number if its value fits in an `i32`, else
/// an error at its first digit.
pub open spec fn classify_number(digits: Seq<char>) -> Lexeme {
    if decimal_value(digits) <= i32::MAX {
        Lexeme::Number(decimal_value(digits) as i32)
    } else {
        Lexeme::Error(digits[0])
    }
}

/// Where the run of characters of `class` that starts at `i` ends: the first index
/// from `i` on that holds no character of the class.
pub open spec fn run_end(t: Seq<char>, i: int, class: CharClass) -> int
    decreases t.len() - i,
{
    if 0 <= i < t.len() && in_class(class, t[i]) {
        run_end(t, i + 1, class)
    } else {
        i
    }
}

/// Whether a block comment opens at `i`.
pub open spec fn opens_comment(t: Seq<char>, i: int) -> bool {
    0 <= i && i + 1 < t.len() && t[i] == '/' && t[i + 1] == '*'
}

/// Whether a block comment closes at `i`.
pub open spec fn closes_comment(t: Seq<char>, i: int) -> bool {
    0 <= i && i + 1 < t.len() && t[i] == '*' && t[i + 1] == '/'
}

/// Where the comment ends in which `i` lies at nesting depth `depth`: the index
/// behind the `*/` that closes the outermost comment, or `None` if the text ends
/// before that. An opener inside a comment adds a level, a closer takes one away.
pub open spec fn comment_end(t: Seq<char>, i: int, depth: nat) -> Option<int>
    decreases t.len() - i,
{
    if i < 0 || i >= t.len() {
        None
    } else if opens_comment(t, i) {
        comment_end(t, i + 2, depth + 1)
    } else if closes_comment(t, i) {
        if depth <= 1 {
            Some(i + 2)
        } else {
            comment_end(t, i + 2, (depth - 1) as nat)
        }
    } else {
        comment_end(t, i + 1, depth)
    }
}

/// A comment ends behind its own opener, inside the text.
pub proof fn lemma_comment_end_bounds(t: Seq<char>, i: int, depth: nat)
    ensures
        comment_end(t, i, depth) matches Some(j) ==> i + 2 <= j <= t.len(),
    decreases t.len() - i,
{
    if i < 0 || i >= t.len() {
    } else if opens_comment(t, i) {
        lemma_comment_end_bounds(t, i + 2, depth + 1);
    } else if closes_comment(t, i) {
        if depth > 1 {
            lemma_comment_end_bounds(t, i + 2, (depth - 1) as nat);
        }
    } else {
        lemma_comment_end_bounds(t, i + 1, depth);
    }
}

/// Where the next token starts, from `i` on: behind all whitespace and all closed
/// comments. If a comment is met that the text never closes, this is where it opens.
pub open spec fn token_start(t: Seq<char>, i: int) -> int
    decreases t.len() - i,
{
    if 0 <= i < t.len() && whitespace(t[i]) {
        token_start(t, i + 1)
    } else if opens_comment(t, i) {
        match comment_end(t, i + 2, 1) {
            Some(j) => {
                proof {
                    lemma_comment_end_bounds(t, i + 2, 1);
                }
                token_start(t, j)
            },
            None => i,
        }
    } else {
        i
    }
}

/// A token in the text: what it is, and the characters `start..end` that it takes.
pub struct Scan {
    pub lexeme: Lexeme,
    pub start: int,
    pub end: int,
}

/// The token that starts at `s`, where [`token_start`] has stopped.
pub open spec fn token_starting(t: Seq<char>, s: int) -> Scan {
    if s < 0 || s >= t.len() {
        Scan { lexeme: Lexeme::Eof, start: s, end: s }
    } else if ident_char(t[s]) {
        let e = run_end(t, s, CharClass::Word);
        Scan { lexeme: classify_word(t.subrange(s, e)), start: s, end: e }
    } else if digit(t[s]) {
        let e = run_end(t, s, CharClass::Digit);
        Scan { lexeme: classify_number(t.subrange(s, e)), start: s, end: e }
    } else if t[s] == '(' {
        Scan { lexeme: Lexeme::Lp, start: s, end: s + 1 }
    } else if t[s] == ')' {
        Scan { lexeme: Lexeme::Rp, start: s, end: s + 1 }
    } else if t[s] == ',' {
        Scan { lexeme: Lexeme::Comma, start: s, end: s + 1 }
    } else if opens_comment(t, s) {
        Scan { lexeme: Lexeme::Error('/'), start: s, end: t.len() as int }
    } else if operator_char(t[s]) {
        let e = run_end(t, s, CharClass::Symbol);
        Scan { lexeme: Lexeme::Operator(t.subrange(s, e)), start: s, end: e }
    } else {
        Scan { lexeme: Lexeme::Error(t[s]), start: s, end: s + 1 }
    }
}

/// The next token from `i` on. A comment that is never closed gives an error token
/// with the `/` that opens it, and takes the rest of the text.
pub open spec fn token_at(t: Seq<char>, i: int) -> Scan {
    token_starting(t, token_start(t, i))
}

/// A run ends at or behind its start, inside the text, on a character that is not
/// of the class; all the characters before that are of the class.
pub proof fn lemma_run_end(t: Seq<char>, i: int, class: CharClass)
    requires
        0 <= i <= t.len(),
    ensures
        i <= run_end(t, i, class) <= t.len(),
        run_end(t, i, class) < t.len() ==> !in_class(class, t[run_end(t, i, class)]),
        forall|j: int| i <= j < run_end(t, i, class) ==> in_class(class, #[trigger] t[j]),
        i < t.len() && in_class(class, t[i]) ==> i < run_end(t, i, class),
    decreases t.len() - i,
{
    if i < t.len() && in_class(class, t[i]) {
        lemma_run_end(t, i + 1, class);
    }
}

/// The next token starts at or behind `i`, inside the text or at its end, and not on
/// whitespace. If it starts on the opener of a comment, that comment is never closed.
pub proof fn lemma_token_start(t: Seq<char>, i: int)
    requires
        0 <= i <= t.len(),
    ensures
        i <= token_start(t, i) <= t.len(),
        token_start(t, i) < t.len() ==> !whitespace(t[token_start(t, i)]),
        opens_comment(t, token_start(t, i)) ==> comment_end(t, token_start(t, i) + 2, 1) is None,
    decreases t.len() - i,
{
    if i < t.len() && whitespace(t[i]) {
        lemma_token_start(t, i + 1);
    } else if opens_comment(t, i) {
        match comment_end(t, i + 2, 1) {
            Some(j) => {
                lemma_comment_end_bounds(t, i + 2, 1);
                lemma_token_start(t, j);
            },
            None => {},
        }
    }
}

/// A token other than the end of the text takes at least one character, from `i` on
/// and inside the text.
pub proof fn lemma_token_advances(t: Seq<char>, i: int)
    requires
        0 <= i <= t.len(),
    ensures
        i <= token_at(t, i).start <= token_at(t, i).end <= t.len(),
        !(token_at(t, i).lexeme is Eof) ==> token_at(t, i).start < token_at(t, i).end,
        token_at(t, i).lexeme is Eof ==> token_at(t, i).start == t.len(),
{
    lemma_token_start(t, i);
    let s = token_start(t, i);
    if s < t.len() {
        lemma_run_end(t, s, CharClass::Word);
        lemma_run_end(t, s, CharClass::Digit);
        lemma_run_end(t, s, CharClass::Symbol);
    }
}

/// The tokens of the text from `i` on, in order, up to the end of the text. The end
/// itself is not among them.
pub open spec fn tokens_from(t: Seq<char>, i: int) -> Seq<Scan>
    decreases t.len() - i,
{
    if i < 0 || i > t.len() || token_at(t, i).lexeme is Eof {
        Seq::empty()
    } else {
        proof {
            lemma_token_advances(t, i);
        }
        seq![token_at(t, i)] + tokens_from(t, token_at(t, i).end)
    }
}

/// One more than `n`, or `n` itself if it is the largest `u32`.
pub open spec fn next_count(n: u32) -> u32 {
    if n < u32::MAX {
        (n + 1) as u32
    } else {
        n
    }
}

/// The position behind `p`, where the character `c` stands, or the end of the text
/// if `c` is `None`: a line feed stands in column 1 of the line behind that of `p`,
/// anything else in the column behind that of `p`.
pub open spec fn step(p: ScanState, c: Option<char>) -> ScanState {
    if c == Some('\n') {
        ScanState { line: next_count(p.line), column: 1 }
    } else {
        ScanState { line: p.line, column: next_count(p.column) }
    }
}

/// The position of index `i` of the text `t`, where index 0 has the position `base`.
/// Index `t.len()` is the end of the text.
pub open spec fn position_from(base: ScanState, t: Seq<char>, i: int) -> ScanState
    decreases i,
{
    if i <= 0 {
        base
    } else {
        step(
            position_from(base, t, i - 1),
            if i < t.len() {
                Some(t[i])
            } else {
                None
            },
        )
    }
}

/// The number of an integer literal is never negative.
pub proof fn lemma_number_is_not_negative(t: Seq<char>, i: int)
    ensures
        token_at(t, i).lexeme matches Lexeme::Number(n) ==> n >= 0,
{
}

/// A reserved word has at least two characters, and begins with a letter.
pub proof fn lemma_reserved_word_shape(w: Seq<char>)
    requires
        reserved_word(w),
    ensures
        w.len() >= 2,
        ident_char(w[0]),
{
    reveal_strlit("to");
    reveal_strlit("with");
    reveal_strlit("is");
    reveal_strlit("return");
    reveal_strlit("do");
    reveal_strlit("end");
    reveal_strlit("if");
    reveal_strlit("then");
    reveal_strlit("else");
    reveal_strlit("let");
    reveal_strlit("be");
    reveal_strlit("forever");
    reveal_strlit("while");
    reveal_strlit("for");
    reveal_strlit("each");
    reveal_strlit("in");
    reveal_strlit("set");
    reveal_strlit("through");
    reveal_strlit("change");
    reveal_strlit("by");
    reveal_strlit("variable");
}

/// A token whose characters are a reserved word is the keyword of that word: it is
/// no name and no operator.
pub proof fn lemma_reserved_word_is_keyword(t: Seq<char>, i: int)
    requires
        0 <= i <= t.len(),
        reserved_word(t.subrange(token_at(t, i).start, token_at(t, i).end)),
    ensures
        token_at(t, i).lexeme == Lexeme::Keyword(
            t.subrange(token_at(t, i).start, token_at(t, i).end),
        ),
{
    let scan = token_at(t, i);
    let w = t.subrange(scan.start, scan.end);
    lemma_token_advances(t, i);
    lemma_reserved_word_shape(w);
}

/// Every token of a text whose characters are a reserved word is the keyword of
/// that word.
pub proof fn lemma_reserved_words_are_keywords(t: Seq<char>, i: int)
    requires
        0 <= i <= t.len(),
    ensures
        forall|k: int|
            #![trigger tokens_from(t, i)[k]]
            0 <= k < tokens_from(t, i).len() && reserved_word(
                t.subrange(tokens_from(t, i)[k].start, tokens_from(t, i)[k].end),
            ) ==> tokens_from(t, i)[k].lexeme == Lexeme::Keyword(
                t.subrange(tokens_from(t, i)[k].start, tokens_from(t, i)[k].end),
            ),
    decreases t.len() - i,
{
    let first = token_at(t, i);
    if !(first.lexeme is Eof) {
        lemma_token_advances(t, i);
        lemma_reserved_words_are_keywords(t, first.end);
        let rest = tokens_from(t, first.end);
        assert forall|k: int|
            #![trigger tokens_from(t, i)[k]]
            0 <= k < tokens_from(t, i).len() && reserved_word(
                t.subrange(tokens_from(t, i)[k].start, tokens_from(t, i)[k].end),
            ) implies tokens_from(t, i)[k].lexeme == Lexeme::Keyword(
            t.subrange(tokens_from(t, i)[k].start, tokens_from(t, i)[k].end),
        ) by {
            if k == 0 {
                lemma_reserved_word_is_keyword(t, i);
            }
        }
    }
}

/// Openers of comments, one behind the other, add their number to the depth.
pub proof fn lemma_comment_openers(t: Seq<char>, i: int, depth: nat, n: nat)
    requires
        occurs_at(t, i, repeat("/*"@, n)),
    ensures
        comment_end(t, i, depth) == comment_end(t, i + 2 * n, depth + n),
    decreases n,
{
    reveal_strlit("/*");
    if n > 0 {
        let before = repeat("/*"@, (n - 1) as nat);
        lemma_repeat_len("/*"@, (n - 1) as nat);
        lemma_repeat_front("/*"@, (n - 1) as nat);
        lemma_occurs_parts(t, i, "/*"@, before);
        lemma_occurs_chars(t, i, "/*"@);
        assert(t[i + 0] == '/' && t[i + 1] == '*');
        lemma_comment_openers(t, i + 2, depth + 1, (n - 1) as nat);
    }
}

/// Characters of which none is a `/` or a `*` leave the depth as it is.
pub proof fn lemma_comment_filler(t: Seq<char>, i: int, depth: nat, filler: Seq<char>)
    requires
        occurs_at(t, i, filler),
        forall|j: int| 0 <= j < filler.len() ==> filler[j] != '/' && filler[j] != '*',
    ensures
        comment_end(t, i, depth) == comment_end(t, i + filler.len(), depth),
    decreases filler.len(),
{
    if filler.len() > 0 {
        lemma_occurs_chars(t, i, filler);
        assert(t[i + 0] == filler[0]);
        let rest = filler.subrange(1, filler.len() as int);
        assert(filler == filler.subrange(0, 1) + rest);
        lemma_occurs_parts(t, i, filler.subrange(0, 1), rest);
        assert forall|j: int| 0 <= j < rest.len() implies rest[j] != '/' && rest[j] != '*' by {
        }
        lemma_comment_filler(t, i + 1, depth, rest);
    }
}

/// As many closers as the depth is, one behind the other, end the comment.
pub proof fn lemma_comment_closers(t: Seq<char>, i: int, depth: nat)
    requires
        depth >= 1,
        occurs_at(t, i, repeat("*/"@, depth)),
    ensures
        comment_end(t, i, depth) == Some(i + 2 * depth),
    decreases depth,
{
    reveal_strlit("*/");
    let before = repeat("*/"@, (depth - 1) as nat);
    lemma_repeat_len("*/"@, (depth - 1) as nat);
    lemma_repeat_front("*/"@, (depth - 1) as nat);
    lemma_occurs_parts(t, i, "*/"@, before);
    lemma_occurs_chars(t, i, "*/"@);
    assert(t[i + 0] == '*' && t[i + 1] == '/');
    if depth > 1 {
        lemma_comment_closers(t, i + 2, (depth - 1) as nat);
    }
}

/// A comment that is nested `n` deep is skipped whole: `n` openers, any characters
/// but `/` and `*`, and `n` closers. The next token is sought behind them.
pub proof fn lemma_nested_comment_is_skipped(t: Seq<char>, i: int, n: nat, filler: Seq<char>)
    requires
        n >= 1,
        occurs_at(t, i, repeat("/*"@, n) + filler + repeat("*/"@, n)),
        forall|j: int| 0 <= j < filler.len() ==> filler[j] != '/' && filler[j] != '*',
    ensures
        token_start(t, i) == token_start(t, i + 4 * n + filler.len()),
        token_at(t, i) == token_at(t, i + 4 * n + filler.len()),
{
    reveal_strlit("/*");
    let openers = repeat("/*"@, n);
    let closers = repeat("*/"@, n);
    lemma_repeat_len("/*"@, n);
    lemma_repeat_len("*/"@, n);
    lemma_occurs_parts(t, i, openers + filler, closers);
    lemma_occurs_parts(t, i, openers, filler);
    lemma_repeat_front("/*"@, (n - 1) as nat);
    lemma_occurs_parts(t, i, "/*"@, repeat("/*"@, (n - 1) as nat));
    lemma_occurs_chars(t, i, "/*"@);
    assert(t[i + 0] == '/' && t[i + 1] == '*');
    lemma_repeat_len("/*"@, (n - 1) as nat);
    lemma_comment_openers(t, i + 2, 1, (n - 1) as nat);
    lemma_comment_filler(t, i + 2 * n, n, filler);
    lemma_comment_closers(t, i + 2 * n + filler.len(), n);
}

/// The closer that ends a comment at depth `e` takes the same `e` levels from any
/// greater depth: from `i` at depth `e + d` the text is read as from the end of
/// that comment at depth `d`.
pub proof fn lemma_comment_levels(t: Seq<char>, i: int, e: nat, d: nat)
    requires
        e >= 1,
        d >= 1,
        comment_end(t, i, e) is Some,
    ensures
        comment_end(t, i, e + d) == comment_end(t, comment_end(t, i, e)->Some_0, d),
    decreases t.len() - i,
{
    if i < 0 || i >= t.len() {
    } else if opens_comment(t, i) {
        lemma_comment_levels(t, i + 2, e + 1, d);
    } else if closes_comment(t, i) {
        if e > 1 {
            lemma_comment_levels(t, i + 2, (e - 1) as nat, d);
        }
    } else {
        lemma_comment_levels(t, i + 1, e, d);
    }
}

/// A comment inside a comment is skipped whole, whatever it holds, and leaves the
/// depth as it is: only the closer that matches an opener closes its comment. So
/// the outer comment ends where it would end without the inner one.
pub proof fn lemma_inner_comment_is_skipped(t: Seq<char>, i: int, depth: nat)
    requires
        depth >= 1,
        opens_comment(t, i),
        comment_end(t, i + 2, 1) is Some,
    ensures
        comment_end(t, i, depth) == comment_end(t, comment_end(t, i + 2, 1)->Some_0, depth),
{
    lemma_comment_levels(t, i + 2, 1, depth);
}

/// A comment before a token is skipped whole, whatever it holds: the next token is
/// the one behind the closer that matches its opener.
pub proof fn lemma_closed_comment_is_skipped(t: Seq<char>, i: int)
    requires
        opens_comment(t, i),
        comment_end(t, i + 2, 1) is Some,
    ensures
        token_at(t, i) == token_at(t, comment_end(t, i + 2, 1)->Some_0),
{
}

/// Where no comment closes from `i` on, the comment in which `i` lies has no end.
pub proof fn lemma_comment_without_closer(t: Seq<char>, i: int, depth: nat)
    requires
        forall|j: int| i <= j ==> !closes_comment(t, j),
    ensures
        comment_end(t, i, depth) is None,
    decreases t.len() - i,
{
    if i < 0 || i >= t.len() {
    } else if opens_comment(t, i) {
        lemma_comment_without_closer(t, i + 2, depth + 1);
    } else {
        lemma_comment_without_closer(t, i + 1, depth);
    }
}

/// A comment that is opened and never closed gives an error token: the `/` that
/// opens the comment, found where it opens. The token takes the rest of the text,
/// so no token follows it.
pub proof fn lemma_unclosed_comment_is_an_error(t: Seq<char>, i: int)
    requires
        opens_comment(t, i),
        comment_end(t, i + 2, 1) is None,
    ensures
        token_at(t, i) == (Scan { lexeme: Lexeme::Error('/'), start: i, end: t.len() as int }),
        tokens_from(t, i) == seq![token_at(t, i)],
{
    lemma_token_advances(t, i);
    lemma_token_start(t, t.len() as int);
    assert(tokens_from(t, t.len() as int) == Seq::<Scan>::empty());
}

} // verus!
