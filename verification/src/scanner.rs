//! The scanner: it cuts the source text into tokens.
use vstd::prelude::*;
use vstd::std_specs::cmp::PartialEqSpecImpl;
use crate::lexis::{
    classify_word, comment_end, decimal_value, digit, digit_value, ident_char,
    lemma_comment_end_bounds, lemma_run_end, lemma_token_advances, lexeme_text, opens_comment,
    operator_char, operator_word, position_from, reserved_word, run_end, token_at,
    token_start, tokens_from, whitespace, CharClass, Lexeme, Scan,
};
use crate::text::{chars_of, push_char, push_integer, push_str, same_text, string_of};

verus! {

/// Where in the source a token was found.
#[derive(Debug, Copy, Clone, PartialEq, Eq, Structural)]
pub struct ScanState {
    /// The line, counted from 1.
    pub line: u32,
    /// The column in that line.
    pub column: u32,
}

impl ScanState {
    /// The position at `line` and `column`.
    pub fn new(line: u32, column: u32) -> (s: ScanState)
        ensures
            s == (ScanState { line, column }),
    {
        ScanState { line, column }
    }

    /// The position that stands for no place in the source.
    pub fn empty() -> (s: ScanState)
        ensures
            s == (ScanState { line: 0, column: 0 }),
    {
        ScanState::new(0, 0)
    }
}

/// A token of the language, with the place where it was found.
///
/// Two tokens are equal (`==`) when they are the same token, wherever they were found.
#[derive(Debug)]
pub enum Token {
    /// An integer literal, with its value.
    Number(i32, ScanState),
    /// A name.
    Ident(String, ScanState),
    /// A reserved word.
    Keyword(String, ScanState),
    /// An operator, as it was spelled.
    Operator(String, ScanState),
    /// `(`
    Lp(ScanState),
    /// `)`
    Rp(ScanState),
    /// `,`
    Comma(ScanState),
    /// A character that begins no token.
    Error(char, ScanState),
    /// The end of the source.
    EOF(ScanState),
}

impl Token {
    /// What the token is.
    pub open spec fn lexeme(&self) -> Lexeme {
        match self {
            Token::Number(n, _) => Lexeme::Number(*n),
            Token::Ident(s, _) => Lexeme::Ident(s@),
            Token::Keyword(s, _) => Lexeme::Keyword(s@),
            Token::Operator(s, _) => Lexeme::Operator(s@),
            Token::Lp(_) => Lexeme::Lp,
            Token::Rp(_) => Lexeme::Rp,
            Token::Comma(_) => Lexeme::Comma,
            Token::Error(c, _) => Lexeme::Error(*c),
            Token::EOF(_) => Lexeme::Eof,
        }
    }

    /// Where the token was found.
    pub open spec fn position(&self) -> ScanState {
        match self {
            Token::Number(_, s) => *s,
            Token::Ident(_, s) => *s,
            Token::Keyword(_, s) => *s,
            Token::Operator(_, s) => *s,
            Token::Lp(s) => *s,
            Token::Rp(s) => *s,
            Token::Comma(s) => *s,
            Token::Error(_, s) => *s,
            Token::EOF(s) => *s,
        }
    }

    /// Whether the token is the one that `scan` describes in the text `t`, whose
    /// first character has the position `base`.
    pub open spec fn is_scan(&self, base: ScanState, t: Seq<char>, scan: Scan) -> bool {
        self@ == scan.lexeme && self.position() == position_from(base, t, scan.start)
    }

    /// The token in words, for a message.
    pub fn describe(&self) -> (s: String)
        ensures
            s@ == lexeme_text(self@),
    {
        let mut out: Vec<char> = Vec::new();
        match self {
            Token::Number(n, _) => {
                push_str(&mut out, "the number ");
                push_integer(&mut out, *n);
            },
            Token::Ident(w, _) => {
                push_str(&mut out, "the name `");
                push_str(&mut out, w.as_str());
                push_str(&mut out, "`");
            },
            Token::Keyword(w, _) => {
                push_str(&mut out, "the keyword `");
                push_str(&mut out, w.as_str());
                push_str(&mut out, "`");
            },
            Token::Operator(w, _) => {
                push_str(&mut out, "the operator `");
                push_str(&mut out, w.as_str());
                push_str(&mut out, "`");
            },
            Token::Lp(_) => {
                push_str(&mut out, "`(`");
            },
            Token::Rp(_) => {
                push_str(&mut out, "`)`");
            },
            Token::Comma(_) => {
                push_str(&mut out, "`,`");
            },
            Token::Error(c, _) => {
                push_str(&mut out, "the character `");
                out.push(*c);
                push_str(&mut out, "`");
            },
            Token::EOF(_) => {
                push_str(&mut out, "the end of the source");
            },
        }
        assert(out@ =~= lexeme_text(self@));
        string_of(&out)
    }

    /// Where the token was found.
    pub fn state(self) -> (s: ScanState)
        ensures
            s == self.position(),
    {
        match self {
            Token::Number(_, s) => s,
            Token::Ident(_, s) => s,
            Token::Keyword(_, s) => s,
            Token::Operator(_, s) => s,
            Token::Error(_, s) => s,
            Token::Lp(s) => s,
            Token::Rp(s) => s,
            Token::Comma(s) => s,
            Token::EOF(s) => s,
        }
    }
}

impl View for Token {
    type V = Lexeme;

    open spec fn view(&self) -> Lexeme {
        self.lexeme()
    }
}

impl Clone for Token {
    fn clone(&self) -> (t: Token)
        ensures
            t == *self,
    {
        match self {
            Token::Number(n, s) => Token::Number(*n, *s),
            Token::Ident(w, s) => Token::Ident(w.clone(), *s),
            Token::Keyword(w, s) => Token::Keyword(w.clone(), *s),
            Token::Operator(w, s) => Token::Operator(w.clone(), *s),
            Token::Lp(s) => Token::Lp(*s),
            Token::Rp(s) => Token::Rp(*s),
            Token::Comma(s) => Token::Comma(*s),
            Token::Error(c, s) => Token::Error(*c, *s),
            Token::EOF(s) => Token::EOF(*s),
        }
    }
}

impl PartialEq for Token {
    fn eq(&self, other: &Token) -> (same: bool) {
        match (self, other) {
            (Token::Number(a, _), Token::Number(b, _)) => *a == *b,
            (Token::Ident(a, _), Token::Ident(b, _)) => same_text(a.as_str(), b.as_str()),
            (Token::Keyword(a, _), Token::Keyword(b, _)) => same_text(a.as_str(), b.as_str()),
            (Token::Operator(a, _), Token::Operator(b, _)) => same_text(a.as_str(), b.as_str()),
            (Token::Lp(_), Token::Lp(_)) => true,
            (Token::Rp(_), Token::Rp(_)) => true,
            (Token::Comma(_), Token::Comma(_)) => true,
            (Token::Error(a, _), Token::Error(b, _)) => *a == *b,
            (Token::EOF(_), Token::EOF(_)) => true,
            _ => false,
        }
    }
}

impl PartialEqSpecImpl for Token {
    open spec fn obeys_eq_spec() -> bool {
        true
    }

    open spec fn eq_spec(&self, other: &Token) -> bool {
        self@ == other@
    }
}

/// Whether `c` separates tokens.
pub fn is_whitespace(c: char) -> (b: bool)
    ensures
        b == whitespace(c),
{
    (c >= '\u{9}' && c <= '\u{d}') || c == ' ' || c == '\u{85}' || c == '\u{a0}' || c == '\u{1680}'
        || (c >= '\u{2000}' && c <= '\u{200a}') || c == '\u{2028}' || c == '\u{2029}' || c
        == '\u{202f}' || c == '\u{205f}' || c == '\u{3000}'
}

/// Whether `c` can stand in a name.
pub fn is_ident_char(c: char) -> (b: bool)
    ensures
        b == ident_char(c),
{
    (c >= 'a' && c <= 'z') || (c >= 'A' && c <= 'Z') || c == '_'
}

/// Whether `c` is a decimal digit.
pub fn is_digit(c: char) -> (b: bool)
    ensures
        b == digit(c),
{
    c >= '0' && c <= '9'
}

/// Whether `c` can stand in a symbolic operator.
pub fn is_operator_char(c: char) -> (b: bool)
    ensures
        b == operator_char(c),
{
    c == '+' || c == '=' || c == '-' || c == '*' || c == '/' || c == '<' || c == '>' || c == '~'
        || c == '|' || c == '&' || c == '!'
}

/// Whether `w` is a reserved word.
pub fn is_reserved_word(w: &str) -> (b: bool)
    ensures
        b == reserved_word(w@),
{
    same_text(w, "to") || same_text(w, "with") || same_text(w, "is") || same_text(w, "return")
        || same_text(w, "do") || same_text(w, "end") || same_text(w, "if") || same_text(w, "then")
        || same_text(w, "else") || same_text(w, "let") || same_text(w, "be") || same_text(
        w,
        "forever",
    ) || same_text(w, "while") || same_text(w, "for") || same_text(w, "each") || same_text(w, "in")
        || same_text(w, "set") || same_text(w, "through") || same_text(w, "change") || same_text(
        w,
        "by",
    ) || same_text(w, "variable")
}

/// Whether `w` is an operator that is spelled as a word.
pub fn is_operator_word(w: &str) -> (b: bool)
    ensures
        b == operator_word(w@),
{
    same_text(w, "and") || same_text(w, "or") || same_text(w, "not") || same_text(w, "modulo")
}

/// The value of the decimal digit `c`.
fn value_of_digit(c: char) -> (d: u64)
    requires
        digit(c),
    ensures
        d == digit_value(c),
        d <= 9,
{
    c as u64 - '0' as u64
}

/// The characters of a text that are still to be read, in their order.
#[derive(Debug)]
pub struct CharStream {
    chars: Vec<char>,
    read: usize,
}

impl CharStream {
    #[verifier::type_invariant]
    closed spec fn inv(self) -> bool {
        self.read <= self.chars@.len()
    }

    /// The characters that have not been read.
    pub closed spec fn rest(&self) -> Seq<char> {
        self.chars@.skip(self.read as int)
    }

    /// The characters of `source`, none of them read.
    pub fn new(source: &str) -> (s: CharStream)
        ensures
            s.rest() == source@,
    {
        let chars = chars_of(source);
        assert(chars@.skip(0) == chars@);
        CharStream { chars, read: 0 }
    }

    /// Reads the next character, if one is left.
    pub fn next(&mut self) -> (c: Option<char>)
        ensures
            c == if old(self).rest().len() > 0 {
                Some(old(self).rest()[0])
            } else {
                None::<char>
            },
            final(self).rest() == if old(self).rest().len() > 0 {
                old(self).rest().skip(1)
            } else {
                old(self).rest()
            },
    {
        proof {
            use_type_invariant(&*self);
        }
        if self.read < self.chars.len() {
            let c = self.chars[self.read];
            self.read = self.read + 1;
            assert(self.chars@.skip(self.read as int) =~= old(self).rest().skip(1));
            Some(c)
        } else {
            None
        }
    }

    /// The number of characters that are left.
    pub fn left(&self) -> (n: usize)
        ensures
            n == self.rest().len(),
    {
        proof {
            use_type_invariant(self);
        }
        self.chars.len() - self.read
    }

    /// The next character, if one is left. It stays unread.
    pub fn peek(&self) -> (c: Option<char>)
        ensures
            c == if self.rest().len() > 0 {
                Some(self.rest()[0])
            } else {
                None::<char>
            },
    {
        proof {
            use_type_invariant(self);
        }
        if self.read < self.chars.len() {
            Some(self.chars[self.read])
        } else {
            None
        }
    }
}

/// A scanner over a source text. It hands out the tokens of the text one by one.
///
/// The scanner looks one character ahead. That character is `peek`; `line` and
/// `column` are its position. A new scanner looks at a blank before the source, in
/// column 0 of line 1, so the first character of the source has column 1.
#[derive(Debug)]
pub struct Scanner<'a> {
    /// The source text, as it was given. The scanner does not read it again.
    pub source_str: &'a str,
    /// The characters of the source that have not been read.
    pub source_chars: CharStream,
    /// The character that the scanner looks at, or `None` behind the last one.
    pub peek: Option<char>,
    /// The column of that character.
    pub column: u32,
    /// The line of that character.
    pub line: u32,
}

impl<'a> Scanner<'a> {
    /// The characters of the source that the scanner has not read yet: those behind
    /// the one that it looks at.
    pub open spec fn rest(&self) -> Seq<char> {
        self.source_chars.rest()
    }

    /// The text that the scanner has before it: the character that it looks at, and
    /// those that it has not read. A scanner that looks at nothing has no text
    /// before it.
    pub open spec fn stream(&self) -> Seq<char> {
        match self.peek {
            Some(c) => seq![c] + self.rest(),
            None => Seq::empty(),
        }
    }

    /// The position of the character that the scanner looks at.
    pub open spec fn place(&self) -> ScanState {
        ScanState { line: self.line, column: self.column }
    }

    /// Whether the scanner stands at index `i` of the text `t`, whose first character
    /// has the position `base`: it has before it what `t` holds from `i` on.
    pub open spec fn at(&self, t: Seq<char>, base: ScanState, i: int) -> bool {
        &&& 0 <= i <= t.len()
        &&& self.stream() == t.skip(i)
        &&& self.place() == position_from(base, t, i)
    }

    /// A scanner for `source`. It looks at a blank before the source, in column 0 of
    /// line 1, and has read nothing of the source.
    pub fn new(source: &'a str) -> (s: Scanner<'a>)
        ensures
            s.source_str == source,
            s.peek == Some(' '),
            s.line == 1,
            s.column == 0,
            s.rest() == source@,
            s.stream() == seq![' '] + source@,
    {
        Scanner {
            source_str: source,
            source_chars: CharStream::new(source),
            peek: Some(' '),
            column: 0,
            line: 1,
        }
    }

    /// The character that the scanner looks at.
    fn look(&self, Ghost(t): Ghost<Seq<char>>, Ghost(base): Ghost<ScanState>, Ghost(i): Ghost<int>)
        -> (c: Option<char>)
        requires
            self.at(t, base, i),
        ensures
            c == if i < t.len() {
                Some(t[i])
            } else {
                None::<char>
            },
    {
        proof {
            if self.peek is Some {
                assert(self.stream()[0] == t.skip(i)[0]);
            } else {
                assert(t.skip(i).len() == 0);
            }
        }
        self.peek
    }

    /// The character behind the one that the scanner looks at, if the text holds one.
    fn look_behind(
        &self,
        Ghost(t): Ghost<Seq<char>>,
        Ghost(base): Ghost<ScanState>,
        Ghost(i): Ghost<int>,
    ) -> (c: Option<char>)
        requires
            self.at(t, base, i),
            i < t.len(),
        ensures
            c == if i + 1 < t.len() {
                Some(t[i + 1])
            } else {
                None::<char>
            },
    {
        proof {
            assert(self.stream().len() == t.skip(i).len());
            if i + 1 < t.len() {
                assert(self.stream()[1] == t.skip(i)[1]);
            }
        }
        self.source_chars.peek()
    }

    /// The position of the character that the scanner looks at.
    fn position(&self) -> (s: ScanState)
        ensures
            s == self.place(),
    {
        ScanState::new(self.line, self.column)
    }

    /// Reads one character: the scanner then looks at the next one.
    fn get_char(
        &mut self,
        Ghost(t): Ghost<Seq<char>>,
        Ghost(base): Ghost<ScanState>,
        Ghost(i): Ghost<int>,
    )
        requires
            old(self).at(t, base, i),
            i < t.len(),
        ensures
            final(self).at(t, base, i + 1),
            final(self).source_str == old(self).source_str,
    {
        let ghost before = self.rest();
        proof {
            assert(self.stream().len() == t.skip(i).len());
            assert(before =~= t.skip(i + 1)) by {
                assert forall|j: int| 0 <= j < before.len() implies before[j] == t.skip(i + 1)[j] by {
                    assert(self.stream()[j + 1] == t.skip(i)[j + 1]);
                }
            }
        }
        self.peek = self.source_chars.next();
        assert(self.stream() =~= before);
        if self.column < u32::MAX {
            self.column = self.column + 1;
        }
        if let Some('\n') = self.peek {
            if self.line < u32::MAX {
                self.line = self.line + 1;
            }
            self.column = 1;
        }
    }

    /// Whether the characters `a`, `b` stand before the scanner, in this order.
    fn at_pair(
        &self,
        a: char,
        b: char,
        Ghost(t): Ghost<Seq<char>>,
        Ghost(base): Ghost<ScanState>,
        Ghost(i): Ghost<int>,
    ) -> (found: bool)
        requires
            self.at(t, base, i),
        ensures
            found == (i + 1 < t.len() && t[i] == a && t[i + 1] == b),
    {
        match self.look(Ghost(t), Ghost(base), Ghost(i)) {
            Some(c) => match self.look_behind(Ghost(t), Ghost(base), Ghost(i)) {
                Some(d) => c == a && d == b,
                None => false,
            },
            None => false,
        }
    }

    /// Skips the comment that opens before the scanner, nested comments with it. If
    /// the text ends inside the comment the scanner is left at the end of the text,
    /// and the result is `false`.
    #[verifier::loop_isolation(false)]
    fn skip_until_comment_end(
        &mut self,
        Ghost(t): Ghost<Seq<char>>,
        Ghost(base): Ghost<ScanState>,
        Ghost(i): Ghost<int>,
    ) -> (closed: bool)
        requires
            old(self).at(t, base, i),
            opens_comment(t, i),
        ensures
            final(self).source_str == old(self).source_str,
            match comment_end(t, i + 2, 1) {
                Some(j) => closed && final(self).at(t, base, j),
                None => !closed && final(self).at(t, base, t.len() as int),
            },
    {
        let left = self.source_chars.left();
        assert(self.stream().len() == t.skip(i).len());
        self.get_char(Ghost(t), Ghost(base), Ghost(i));
        self.get_char(Ghost(t), Ghost(base), Ghost(i + 1));
        let ghost mut k = i + 2;
        let mut depth: usize = 1;
        loop
            invariant
                self.at(t, base, k),
                self.source_str == old(self).source_str,
                depth >= 1,
                2 * (depth - 1) <= k - (i + 2),
                t.len() - i <= usize::MAX + 1,
                comment_end(t, k, depth as nat) == comment_end(t, i + 2, 1),
            decreases t.len() - k,
        {
            if self.at_pair('/', '*', Ghost(t), Ghost(base), Ghost(k)) {
                self.get_char(Ghost(t), Ghost(base), Ghost(k));
                self.get_char(Ghost(t), Ghost(base), Ghost(k + 1));
                depth = depth + 1;
                proof {
                    k = k + 2;
                }
            } else if self.at_pair('*', '/', Ghost(t), Ghost(base), Ghost(k)) {
                self.get_char(Ghost(t), Ghost(base), Ghost(k));
                self.get_char(Ghost(t), Ghost(base), Ghost(k + 1));
                depth = depth - 1;
                if depth == 0 {
                    return true;
                }
                proof {
                    k = k + 2;
                }
            } else {
                match self.look(Ghost(t), Ghost(base), Ghost(k)) {
                    Some(_) => {
                        self.get_char(Ghost(t), Ghost(base), Ghost(k));
                        proof {
                            k = k + 1;
                        }
                    },
                    None => {
                        return false;
                    },
                }
            }
        }
    }

    /// Skips the comment before the scanner, if one opens there. The result is
    /// `false` if one opens and the text ends inside it.
    fn skip_comments(
        &mut self,
        Ghost(t): Ghost<Seq<char>>,
        Ghost(base): Ghost<ScanState>,
        Ghost(i): Ghost<int>,
    ) -> (closed: bool)
        requires
            old(self).at(t, base, i),
        ensures
            final(self).source_str == old(self).source_str,
            !opens_comment(t, i) ==> closed && final(self).at(t, base, i),
            opens_comment(t, i) ==> match comment_end(t, i + 2, 1) {
                Some(j) => closed && final(self).at(t, base, j),
                None => !closed && final(self).at(t, base, t.len() as int),
            },
    {
        if self.at_pair('/', '*', Ghost(t), Ghost(base), Ghost(i)) {
            self.skip_until_comment_end(Ghost(t), Ghost(base), Ghost(i))
        } else {
            true
        }
    }

    /// Skips whitespace and comments up to the start of the next token. If a comment
    /// is met that the text never closes, the result is the position where it opens,
    /// and the scanner is left at the end of the text.
    #[verifier::loop_isolation(false)]
    fn skip_white(
        &mut self,
        Ghost(t): Ghost<Seq<char>>,
        Ghost(base): Ghost<ScanState>,
        Ghost(i): Ghost<int>,
    ) -> (unclosed: Option<ScanState>)
        requires
            old(self).at(t, base, i),
        ensures
            final(self).source_str == old(self).source_str,
            i <= token_start(t, i) <= t.len(),
            if opens_comment(t, token_start(t, i)) {
                &&& unclosed == Some(position_from(base, t, token_start(t, i)))
                &&& final(self).at(t, base, t.len() as int)
            } else {
                &&& unclosed is None
                &&& final(self).at(t, base, token_start(t, i))
            },
    {
        let ghost mut k = i;
        loop
            invariant
                self.at(t, base, k),
                self.source_str == old(self).source_str,
                i <= k,
                token_start(t, k) == token_start(t, i),
            decreases t.len() - k,
        {
            let blank = match self.look(Ghost(t), Ghost(base), Ghost(k)) {
                Some(c) => is_whitespace(c),
                None => false,
            };
            if blank {
                self.get_char(Ghost(t), Ghost(base), Ghost(k));
                proof {
                    k = k + 1;
                }
            } else if self.at_pair('/', '*', Ghost(t), Ghost(base), Ghost(k)) {
                let opened = self.position();
                proof {
                    lemma_comment_end_bounds(t, k + 2, 1);
                }
                if !self.skip_comments(Ghost(t), Ghost(base), Ghost(k)) {
                    return Some(opened);
                }
                proof {
                    k = comment_end(t, k + 2, 1)->Some_0;
                }
            } else {
                return None;
            }
        }
    }

    /// Reads the number before the scanner: the value of the run of digits that
    /// starts there, or `None` if it does not fit in an `i32`. The scanner is left
    /// behind the run.
    #[verifier::loop_isolation(false)]
    fn get_num(
        &mut self,
        Ghost(t): Ghost<Seq<char>>,
        Ghost(base): Ghost<ScanState>,
        Ghost(i): Ghost<int>,
    ) -> (value: Option<i32>)
        requires
            old(self).at(t, base, i),
            i < t.len(),
            digit(t[i]),
        ensures
            final(self).source_str == old(self).source_str,
            final(self).at(t, base, run_end(t, i, CharClass::Digit)),
            ({
                let run = t.subrange(i, run_end(t, i, CharClass::Digit));
                value == if decimal_value(run) <= i32::MAX {
                    Some(decimal_value(run) as i32)
                } else {
                    None
                }
            }),
    {
        let ghost mut k = i;
        let mut value: u64 = 0;
        let mut fits = true;
        loop
            invariant
                self.at(t, base, k),
                self.source_str == old(self).source_str,
                i <= k,
                run_end(t, k, CharClass::Digit) == run_end(t, i, CharClass::Digit),
                fits ==> value == decimal_value(t.subrange(i, k)),
                fits ==> value <= i32::MAX,
                !fits ==> decimal_value(t.subrange(i, k)) > i32::MAX,
            decreases t.len() - k,
        {
            let c = match self.look(Ghost(t), Ghost(base), Ghost(k)) {
                Some(c) => c,
                None => {
                    break;
                },
            };
            if !is_digit(c) {
                break;
            }
            proof {
                let before = t.subrange(i, k);
                let after = t.subrange(i, k + 1);
                assert(after.drop_last() == before);
            }
            if fits {
                value = 10 * value + value_of_digit(c);
                if value > 0x7fff_ffff {
                    fits = false;
                }
            }
            self.get_char(Ghost(t), Ghost(base), Ghost(k));
            proof {
                k = k + 1;
            }
        }
        if fits {
            Some(value as i32)
        } else {
            None
        }
    }

    /// Reads the word before the scanner, and finds out what it is: a keyword, an
    /// operator or a name. The scanner is left behind the word.
    #[verifier::loop_isolation(false)]
    fn get_ident_token(
        &mut self,
        state: ScanState,
        Ghost(t): Ghost<Seq<char>>,
        Ghost(base): Ghost<ScanState>,
        Ghost(i): Ghost<int>,
    ) -> (tok: Token)
        requires
            old(self).at(t, base, i),
            i < t.len(),
            ident_char(t[i]),
        ensures
            final(self).source_str == old(self).source_str,
            final(self).at(t, base, run_end(t, i, CharClass::Word)),
            tok@ == classify_word(t.subrange(i, run_end(t, i, CharClass::Word))),
            tok.position() == state,
    {
        let ghost mut k = i;
        let mut word = String::new();
        loop
            invariant
                self.at(t, base, k),
                self.source_str == old(self).source_str,
                i <= k,
                run_end(t, k, CharClass::Word) == run_end(t, i, CharClass::Word),
                word@ == t.subrange(i, k),
            decreases t.len() - k,
        {
            let c = match self.look(Ghost(t), Ghost(base), Ghost(k)) {
                Some(c) => c,
                None => {
                    break;
                },
            };
            if !is_ident_char(c) {
                break;
            }
            push_char(&mut word, c);
            assert(t.subrange(i, k + 1) == t.subrange(i, k).push(c));
            self.get_char(Ghost(t), Ghost(base), Ghost(k));
            proof {
                k = k + 1;
            }
        }
        if is_reserved_word(word.as_str()) {
            Token::Keyword(word, state)
        } else if is_operator_word(word.as_str()) {
            Token::Operator(word, state)
        } else {
            Token::Ident(word, state)
        }
    }

    /// Reads the symbolic operator before the scanner: the run of operator characters
    /// that starts there. The scanner is left behind the run.
    #[verifier::loop_isolation(false)]
    fn get_op(
        &mut self,
        Ghost(t): Ghost<Seq<char>>,
        Ghost(base): Ghost<ScanState>,
        Ghost(i): Ghost<int>,
    ) -> (op: String)
        requires
            old(self).at(t, base, i),
            i < t.len(),
            operator_char(t[i]),
        ensures
            final(self).source_str == old(self).source_str,
            final(self).at(t, base, run_end(t, i, CharClass::Symbol)),
            op@ == t.subrange(i, run_end(t, i, CharClass::Symbol)),
    {
        let ghost mut k = i;
        let mut op = String::new();
        loop
            invariant
                self.at(t, base, k),
                self.source_str == old(self).source_str,
                i <= k,
                run_end(t, k, CharClass::Symbol) == run_end(t, i, CharClass::Symbol),
                op@ == t.subrange(i, k),
            decreases t.len() - k,
        {
            let c = match self.look(Ghost(t), Ghost(base), Ghost(k)) {
                Some(c) => c,
                None => {
                    break;
                },
            };
            if !is_operator_char(c) {
                break;
            }
            push_char(&mut op, c);
            assert(t.subrange(i, k + 1) == t.subrange(i, k).push(c));
            self.get_char(Ghost(t), Ghost(base), Ghost(k));
            proof {
                k = k + 1;
            }
        }
        op
    }

    /// The next token of the text `t`, of which the scanner stands at index `i`.
    fn token_from(
        &mut self,
        Ghost(t): Ghost<Seq<char>>,
        Ghost(base): Ghost<ScanState>,
        Ghost(i): Ghost<int>,
    ) -> (tok: Token)
        requires
            old(self).at(t, base, i),
        ensures
            final(self).source_str == old(self).source_str,
            final(self).at(t, base, token_at(t, i).end),
            tok.is_scan(base, t, token_at(t, i)),
    {
        match self.skip_white(Ghost(t), Ghost(base), Ghost(i)) {
            Some(opened) => {
                return Token::Error('/', opened);
            },
            None => {},
        }
        let ghost s = token_start(t, i);
        let state = self.position();
        proof {
            lemma_run_end(t, s, CharClass::Digit);
        }
        match self.look(Ghost(t), Ghost(base), Ghost(s)) {
            Some(c) => {
                if is_ident_char(c) {
                    self.get_ident_token(state, Ghost(t), Ghost(base), Ghost(s))
                } else if is_digit(c) {
                    match self.get_num(Ghost(t), Ghost(base), Ghost(s)) {
                        Some(n) => Token::Number(n, state),
                        None => Token::Error(c, state),
                    }
                } else if c == '(' {
                    self.get_char(Ghost(t), Ghost(base), Ghost(s));
                    Token::Lp(state)
                } else if c == ')' {
                    self.get_char(Ghost(t), Ghost(base), Ghost(s));
                    Token::Rp(state)
                } else if c == ',' {
                    self.get_char(Ghost(t), Ghost(base), Ghost(s));
                    Token::Comma(state)
                } else if is_operator_char(c) {
                    Token::Operator(self.get_op(Ghost(t), Ghost(base), Ghost(s)), state)
                } else {
                    self.get_char(Ghost(t), Ghost(base), Ghost(s));
                    Token::Error(c, state)
                }
            },
            None => Token::EOF(state),
        }
    }

    /// The next token of the source. At the end of the source this is `Token::EOF`,
    /// as often as it is asked for.
    ///
    /// The token is the first one of the text that the scanner has before it, and
    /// the scanner is left behind it. A character that begins no token gives
    /// `Token::Error` with that character. So does a number too large for an `i32`,
    /// with its first digit, and a comment that is never closed, with the `/` that
    /// opens it.
    pub fn next_token(&mut self) -> (tok: Token)
        ensures
            final(self).source_str == old(self).source_str,
            tok.is_scan(old(self).place(), old(self).stream(), token_at(old(self).stream(), 0)),
            final(self).at(
                old(self).stream(),
                old(self).place(),
                token_at(old(self).stream(), 0).end,
            ),
    {
        let ghost t = self.stream();
        let ghost base = self.place();
        assert(t.skip(0) == t);
        self.token_from(Ghost(t), Ghost(base), Ghost(0))
    }

    /// The next token of the source, or `None` at its end.
    pub fn next(&mut self) -> (tok: Option<Token>)
        ensures
            final(self).source_str == old(self).source_str,
            final(self).at(
                old(self).stream(),
                old(self).place(),
                token_at(old(self).stream(), 0).end,
            ),
            match tok {
                Some(tok) => tok.is_scan(
                    old(self).place(),
                    old(self).stream(),
                    token_at(old(self).stream(), 0),
                ) && !(tok@ is Eof),
                None => token_at(old(self).stream(), 0).lexeme is Eof,
            },
    {
        let tok = self.next_token();
        match tok {
            Token::EOF(_) => None,
            _ => Some(tok),
        }
    }

    /// All the tokens of the source that have not been handed out yet, in order, and
    /// behind them the token for the end of the source.
    #[verifier::loop_isolation(false)]
    pub fn into_tokens(self) -> (r: (Vec<Token>, Token))
        ensures
            are_scans(r.0@, self.place(), self.stream(), tokens_from(self.stream(), 0)),
            r.1 == Token::EOF(
                position_from(self.place(), self.stream(), self.stream().len() as int),
            ),
    {
        let ghost t = self.stream();
        let ghost base = self.place();
        let ghost mut k: int = 0;
        let ghost mut done: Seq<Scan> = Seq::empty();
        let mut scanner = self;
        let mut toks: Vec<Token> = Vec::new();
        assert(t.skip(0) == t);
        loop
            invariant
                scanner.at(t, base, k),
                are_scans(toks@, base, t, done),
                done + tokens_from(t, k) == tokens_from(t, 0),
            decreases t.len() - k,
        {
            proof {
                lemma_token_advances(t, k);
            }
            let ghost scan = token_at(t, k);
            let tok = scanner.token_from(Ghost(t), Ghost(base), Ghost(k));
            match tok {
                Token::EOF(_) => {
                    return (toks, tok);
                },
                _ => {
                    toks.push(tok);
                    proof {
                        done = done.push(scan);
                        k = scan.end;
                    }
                },
            }
        }
    }

    /// All the tokens of the source that have not been handed out yet, in order. The
    /// end of the source is not among them.
    pub fn collect(self) -> (toks: Vec<Token>)
        ensures
            are_scans(toks@, self.place(), self.stream(), tokens_from(self.stream(), 0)),
    {
        self.into_tokens().0
    }
}

/// Whether `toks` are the tokens that `scans` describe in the text `t`, whose first
/// character has the position `base`, one for one.
pub open spec fn are_scans(toks: Seq<Token>, base: ScanState, t: Seq<char>, scans: Seq<Scan>) -> bool {
    &&& toks.len() == scans.len()
    &&& forall|i: int| 0 <= i < toks.len() ==> (#[trigger] toks[i]).is_scan(base, t, scans[i])
}

} // verus!
