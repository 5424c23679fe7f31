//! Tests for the scanner.
use haumea::scanner::{ScanState, Scanner, Token};

fn assert_scan_is(source: &str, expected: Vec<Token>) {
    let scanner = Scanner::new(source);
    let found: Vec<Token> = scanner.collect();
    assert_eq!(found, expected);
}

fn number(n: i32) -> Token {
    Token::Number(n, ScanState::empty())
}

fn operator(name: &str) -> Token {
    Token::Operator(name.to_string(), ScanState::empty())
}

fn ident(name: &str) -> Token {
    Token::Ident(name.to_string(), ScanState::empty())
}

#[test]
fn test_scanner_simple() {
    assert_scan_is("1+1", vec![Token::Number(1, ScanState::empty()), Token::Operator("+".to_string(), ScanState::empty()), Token::Number(1, ScanState::empty())]);
    assert_scan_is("   1      +      
    1         ", vec![Token::Number(1, ScanState::empty()), Token::Operator("+".to_string(), ScanState::empty()), Token::Number(1, ScanState::empty())]);
    assert_scan_is("foo * I_love_bars", vec![Token::Ident("foo".to_string(), ScanState::empty()), Token::Operator("*".to_string(), ScanState::empty()), Token::Ident("I_love_bars".to_string(), ScanState::empty())]);
}

#[test]
fn test_keywords() {
    let keywords = vec!["to", "with", "is", "return", "do", "end",
                        "if", "then", "else", "let", "be", "forever",
                        "while", "for", "each", "in",
                        "set", "to", "through", "change", "by", "variable"];
    let keywords: Vec<Token> = keywords.iter().map(|kw| Token::Keyword(kw.to_string(), ScanState::empty())).collect();
    assert_scan_is("to with is return do end if then else let be forever while for each in set to through change by variable", keywords);
}

#[test]
fn test_comments() {
     assert_scan_is("/* This is a comment 
     */ 1 /*So is this */ + /* And this*/ 1", vec![Token::Number(1, ScanState::empty()), Token::Operator("+".to_string(), ScanState::empty()), Token::Number(1, ScanState::empty())]);
     assert_scan_is("/* This /* is /* a /* very */ nested */ comment */ */ 1+1", vec![Token::Number(1, ScanState::empty()), Token::Operator("+".to_string(), ScanState::empty()), Token::Number(1, ScanState::empty())]);
}

#[test]
fn whitespace_is_what_std_calls_whitespace() {
    let mut code = 0u32;
    while code <= 0x10ffff {
        if let Some(c) = char::from_u32(code) {
            assert_eq!(haumea::scanner::is_whitespace(c), c.is_whitespace(), "U+{:04X}", code);
            assert_eq!(haumea::scanner::is_digit(c), c.is_digit(10), "U+{:04X}", code);
        }
        code += 1;
    }
}

#[test]
fn positions_follow_lines_and_columns() {
    let mut scanner = Scanner::new("ab 12\n  (x)");
    assert_eq!(scanner.next_token().state(), ScanState::new(1, 1));
    assert_eq!(scanner.next_token().state(), ScanState::new(1, 4));
    assert_eq!(scanner.next_token().state(), ScanState::new(2, 4));
    assert_eq!(scanner.next_token().state(), ScanState::new(2, 5));
    assert_eq!(scanner.next_token().state(), ScanState::new(2, 6));
    let end = scanner.next_token();
    assert_eq!(end, Token::EOF(ScanState::empty()));
    assert_eq!(end.state(), ScanState::new(2, 7));
    assert_eq!(scanner.next_token(), Token::EOF(ScanState::empty()));
    assert!(scanner.next().is_none());
}

#[test]
fn empty_source_ends_at_once() {
    let mut scanner = Scanner::new("");
    let end = scanner.next_token();
    assert_eq!(end, Token::EOF(ScanState::empty()));
    assert_eq!(end.state(), ScanState::new(1, 1));
    assert_scan_is("", vec![]);
    assert_scan_is("  \n\t ", vec![]);
}

#[test]
fn words_are_keywords_operators_or_names() {
    assert_scan_is(
        "and or not modulo andy x1 returns",
        vec![operator("and"), operator("or"), operator("not"), operator("modulo"), ident("andy"), ident("x"), number(1), ident("returns")],
    );
}

#[test]
fn operators_are_runs_of_operator_characters() {
    assert_scan_is("a>=b", vec![ident("a"), operator(">="), ident("b")]);
    assert_scan_is("a != b <= c", vec![ident("a"), operator("!="), ident("b"), operator("<="), ident("c")]);
    assert_scan_is("f(1, 2)", vec![ident("f"), Token::Lp(ScanState::empty()), number(1), Token::Comma(ScanState::empty()), number(2), Token::Rp(ScanState::empty())]);
    assert_scan_is("-(1)", vec![operator("-"), Token::Lp(ScanState::empty()), number(1), Token::Rp(ScanState::empty())]);
    assert_scan_is("(1)+(2)", vec![Token::Lp(ScanState::empty()), number(1), Token::Rp(ScanState::empty()), operator("+"), Token::Lp(ScanState::empty()), number(2), Token::Rp(ScanState::empty())]);
    assert_scan_is("f(-(x))", vec![ident("f"), Token::Lp(ScanState::empty()), operator("-"), Token::Lp(ScanState::empty()), ident("x"), Token::Rp(ScanState::empty()), Token::Rp(ScanState::empty())]);
    assert_scan_is("a<=(b)", vec![ident("a"), operator("<="), Token::Lp(ScanState::empty()), ident("b"), Token::Rp(ScanState::empty())]);
    assert_scan_is("1+/*x*/2", vec![number(1), operator("+/*"), ident("x"), operator("*/"), number(2)]);
}

#[test]
fn unknown_character_is_an_error_token() {
    assert_scan_is("1 # 2", vec![number(1), Token::Error('#', ScanState::empty()), number(2)]);
    let mut scanner = Scanner::new("\n ?");
    assert_eq!(scanner.next_token().state(), ScanState::new(2, 3));
}

#[test]
fn numbers_fit_in_an_i32() {
    assert_scan_is("2147483647", vec![number(2147483647)]);
    assert_scan_is("0007", vec![number(7)]);
    assert_scan_is("2147483648 5", vec![Token::Error('2', ScanState::empty()), number(5)]);
    assert_scan_is("99999999999999999999999999999999", vec![Token::Error('9', ScanState::empty())]);
}

#[test]
fn comments_nest() {
    assert_scan_is("/**/1", vec![number(1)]);
    assert_scan_is("/* /* */*/ 1", vec![number(1)]);
    assert_scan_is("/*/*/**/*/*/1", vec![number(1)]);
    assert_scan_is("/* a */ /* b */\n/* c */ 1", vec![number(1)]);
    assert_scan_is("/*/ 1", vec![Token::Error('/', ScanState::empty())]);
}

#[test]
fn unclosed_comment_is_an_error_token() {
    assert_scan_is("1 /* never closed", vec![number(1), Token::Error('/', ScanState::empty())]);
    assert_scan_is("/* /* */ 1", vec![Token::Error('/', ScanState::empty())]);
    let mut scanner = Scanner::new("x\n  /* y");
    scanner.next_token();
    let err = scanner.next_token();
    assert_eq!(err, Token::Error('/', ScanState::empty()));
    assert_eq!(err.state(), ScanState::new(2, 4));
    assert_eq!(scanner.next_token(), Token::EOF(ScanState::empty()));
}

#[test]
fn tokens_are_equal_whatever_their_place() {
    assert_eq!(Token::Number(1, ScanState::new(1, 2)), Token::Number(1, ScanState::new(7, 9)));
    assert_ne!(Token::Number(1, ScanState::empty()), Token::Number(2, ScanState::empty()));
    assert_ne!(ident("to"), Token::Keyword("to".to_string(), ScanState::empty()));
    assert_ne!(ident("a"), ident("ab"));
    assert_ne!(Token::Lp(ScanState::empty()), Token::Rp(ScanState::empty()));
    assert_eq!(ident("abc").clone(), ident("abc"));
}

#[test]
fn reserved_words_are_keywords_wherever_they_stand() {
    let words = ["to", "with", "is", "return", "do", "end", "if", "then", "else", "let", "be", "forever", "while", "for", "each", "in", "set", "through", "change", "by", "variable"];
    for word in words {
        for source in [word.to_string(), format!("  {}\n", word), format!("x+{}(1", word), format!("/* {} */{}", word, word)] {
            let tokens = Scanner::new(&source).collect();
            let found: Vec<&Token> = tokens
                .iter()
                .filter(|t| match t {
                    Token::Keyword(w, _) | Token::Ident(w, _) | Token::Operator(w, _) => w == word,
                    _ => false,
                })
                .collect();
            assert_eq!(found, vec![&Token::Keyword(word.to_string(), ScanState::empty())], "{}", source);
        }
        assert!(haumea::scanner::is_reserved_word(word));
        assert!(!haumea::scanner::is_operator_word(word));
        assert_eq!(Scanner::new(&format!("{}s", word)).collect(), vec![ident(&format!("{}s", word))]);
    }
    assert!(!haumea::scanner::is_reserved_word("and"));
    assert!(!haumea::scanner::is_reserved_word(""));
    assert!(!haumea::scanner::is_reserved_word("To"));
}

#[test]
fn comments_nested_to_any_depth_are_skipped() {
    for depth in 1..40 {
        let source = format!("{} filler {} 7", "/*".repeat(depth), "*/".repeat(depth));
        assert_scan_is(&source, vec![number(7)]);
        let source = format!("1{}{}2", "/*".repeat(depth), "*/".repeat(depth));
        assert_scan_is(&source, vec![number(1), number(2)]);
        let open = format!("{} filler {} 7", "/*".repeat(depth + 1), "*/".repeat(depth));
        assert_scan_is(&open, vec![Token::Error('/', ScanState::empty())]);
    }
}

#[test]
fn characters_are_classified() {
    for c in ['a', 'z', 'A', 'Z', '_', 'm'] {
        assert!(haumea::scanner::is_ident_char(c));
    }
    for c in ['0', '9', ' ', '-', 'é', '`', '{', '@', '['] {
        assert!(!haumea::scanner::is_ident_char(c));
    }
    for c in ['+', '=', '-', '*', '/', '<', '>', '~', '|', '&', '!'] {
        assert!(haumea::scanner::is_operator_char(c));
    }
    for c in ['(', ')', ',', '%', '^', 'a', '1', ' '] {
        assert!(!haumea::scanner::is_operator_char(c));
    }
}

#[test]
fn tokens_in_words() {
    let words: Vec<String> = Scanner::new("to f(1, x) >= ?").collect().iter().map(|t| t.describe()).collect();
    assert_eq!(
        words,
        vec!["the keyword `to`", "the name `f`", "`(`", "the number 1", "`,`", "the name `x`", "`)`", "the operator `>=`", "the character `?`"]
    );
    assert_eq!(Token::EOF(ScanState::empty()).describe(), "the end of the source");
}

#[test]
fn non_ascii_text_is_scanned_by_characters() {
    let mut scanner = Scanner::new("é\u{a0}x");
    let first = scanner.next_token();
    assert_eq!(first, Token::Error('é', ScanState::empty()));
    assert_eq!(first.state(), ScanState::new(1, 1));
    let second = scanner.next_token();
    assert_eq!(second, ident("x"));
    assert_eq!(second.state(), ScanState::new(1, 3));
}

#[test]
fn a_line_feed_at_the_start_opens_the_second_line() {
    let mut scanner = Scanner::new("\nx");
    assert_eq!(scanner.next_token().state(), ScanState::new(2, 2));
    let (tokens, end) = Scanner::new("a\n\nb").into_tokens();
    assert_eq!(tokens.len(), 2);
    assert_eq!(tokens[1].clone().state(), ScanState::new(3, 2));
    assert_eq!(end.state(), ScanState::new(3, 3));
}

#[test]
fn a_new_scanner_looks_at_a_blank_before_the_source() {
    let source = "1 + 1";
    let scanner = Scanner::new(source);
    assert_eq!(scanner.source_str, source);
    assert_eq!(scanner.peek, Some(' '));
    assert_eq!(scanner.line, 1);
    assert_eq!(scanner.column, 0);
    assert_eq!(scanner.source_chars.left(), 5);
    assert_eq!(scanner.source_chars.peek(), Some('1'));

    let mut scanner = Scanner::new("ab\nc");
    assert_eq!(scanner.next_token(), ident("ab"));
    assert_eq!((scanner.peek, scanner.line, scanner.column), (Some('\n'), 2, 1));
    assert_eq!(scanner.source_str, "ab\nc");
    assert_eq!(scanner.next_token(), ident("c"));
    assert_eq!((scanner.peek, scanner.line, scanner.column), (None, 2, 3));
    assert_eq!(scanner.next_token(), Token::EOF(ScanState::empty()));
    assert_eq!((scanner.peek, scanner.line, scanner.column), (None, 2, 3));
}

#[test]
fn the_fields_of_a_scanner_can_be_set() {
    let mut scanner = Scanner::new("x y");
    scanner.line = 10;
    scanner.column = 20;
    let first = scanner.next_token();
    assert_eq!(first, ident("x"));
    assert_eq!(first.state(), ScanState::new(10, 21));
    scanner.peek = None;
    assert_eq!(scanner.next_token(), Token::EOF(ScanState::empty()));
    scanner.peek = Some('7');
    let seven = scanner.next_token();
    assert_eq!(seven, number(7));
    assert_eq!(scanner.next_token(), ident("y"));
}

#[test]
fn characters_are_read_one_by_one() {
    let mut chars = haumea::scanner::CharStream::new("hé");
    assert_eq!(chars.left(), 2);
    assert_eq!(chars.peek(), Some('h'));
    assert_eq!(chars.next(), Some('h'));
    assert_eq!(chars.next(), Some('é'));
    assert_eq!(chars.left(), 0);
    assert_eq!(chars.peek(), None);
    assert_eq!(chars.next(), None);
    assert_eq!(chars.next(), None);
}
