use simplegrep::ast::{RegexNode, RepeatRange};
use simplegrep::automaton::NFA;
use simplegrep::cli::should_print;
use simplegrep::parser::{ParseError, Parser};
use simplegrep::tokens::{Lexer, Token};

fn compile(pattern: &str) -> NFA {
    let mut parser = Parser::new(pattern);
    let ast = parser.parse().expect("pattern should parse");
    NFA::from_regex(&ast)
}

fn run(pattern: &str, line: &str) -> bool {
    compile(pattern).matches(line)
}

#[test]
fn lexer_walks_symbols_and_literals() {
    let mut lx = Lexer::new("a(b)*|.^$");
    assert_eq!(lx.next_token(), Token::Char('a'));
    assert_eq!(lx.next_token(), Token::OpenParen);
    assert_eq!(lx.next_token(), Token::Char('b'));
    assert_eq!(lx.next_token(), Token::CloseParen);
    assert_eq!(lx.next_token(), Token::Star);
    assert_eq!(lx.next_token(), Token::Alternation);
    assert_eq!(lx.next_token(), Token::AnyChar);
    assert_eq!(lx.next_token(), Token::StartLine);
    assert_eq!(lx.next_token(), Token::EndLine);
    assert_eq!(lx.next_token(), Token::EOF);
    assert_eq!(lx.next_token(), Token::EOF);
}

#[test]
fn lexer_resolves_escapes() {
    let mut lx = Lexer::new("\\d\\w\\s\\A\\z\\b\\q");
    assert_eq!(lx.next_token(), Token::Digit);
    assert_eq!(lx.next_token(), Token::WordChar);
    assert_eq!(lx.next_token(), Token::Whitespace);
    assert_eq!(lx.next_token(), Token::StartInput);
    assert_eq!(lx.next_token(), Token::EndInput);
    assert_eq!(lx.next_token(), Token::WordBoundary);
    assert_eq!(lx.next_token(), Token::Escape('q'));
    assert_eq!(lx.next_token(), Token::EOF);
}

#[test]
fn lexer_skips_whitespace_and_keeps_trailing_backslash() {
    let mut lx = Lexer::new("a b\t\nc\\");
    assert_eq!(lx.next_token(), Token::Char('a'));
    assert_eq!(lx.next_token(), Token::Char('b'));
    assert_eq!(lx.next_token(), Token::Char('c'));
    assert_eq!(lx.next_token(), Token::Char('\\'));
    assert_eq!(lx.next_token(), Token::EOF);
}

#[test]
fn parser_builds_alternation_tree() {
    let mut parser = Parser::new("a|b");
    let ast = parser.parse().unwrap();
    assert_eq!(
        ast,
        RegexNode::Alternation(vec![RegexNode::Char('a'), RegexNode::Char('b')])
    );
}

#[test]
fn parser_binds_quantifier_to_last_primary() {
    let mut parser = Parser::new("ab*");
    let ast = parser.parse().unwrap();
    assert_eq!(
        ast,
        RegexNode::Concat(vec![
            RegexNode::Char('a'),
            RegexNode::Star(Box::new(RegexNode::Char('b'))),
        ])
    );
}

#[test]
fn parser_reads_groups_and_ranges() {
    let mut parser = Parser::new("(ab){2,3}");
    let ast = parser.parse().unwrap();
    assert_eq!(
        ast,
        RegexNode::Repeat(
            Box::new(RegexNode::Group(Box::new(RegexNode::Concat(vec![
                RegexNode::Char('a'),
                RegexNode::Char('b'),
            ])))),
            RepeatRange { min: 2, max: Some(3) },
        )
    );
}

#[test]
fn unmatched_group_names_missing_close_paren() {
    let mut parser = Parser::new("(a");
    assert_eq!(
        parser.parse(),
        Err(ParseError::Unexpected { expected: Token::CloseParen, found: Token::EOF })
    );
}

#[test]
fn double_star_is_an_error() {
    let mut parser = Parser::new("a**");
    assert_eq!(
        parser.parse(),
        Err(ParseError::UnexpectedToken { found: Token::Star })
    );
}

#[test]
fn leading_quantifier_is_an_error() {
    let mut parser = Parser::new("*a");
    assert_eq!(
        parser.parse(),
        Err(ParseError::UnexpectedToken { found: Token::Star })
    );
}

#[test]
fn inverted_range_is_an_error() {
    let mut parser = Parser::new("a{3,1}");
    assert_eq!(parser.parse(), Err(ParseError::InvalidRange { min: 3, max: 1 }));
}

#[test]
fn range_requires_closing_brace() {
    let mut parser = Parser::new("a{2");
    assert_eq!(
        parser.parse(),
        Err(ParseError::Unexpected { expected: Token::Char('}'), found: Token::EOF })
    );
}

#[test]
fn repeat_range_constructors() {
    let r = RepeatRange::new(1, Some(4));
    assert_eq!(r.min, 1);
    assert_eq!(r.max, Some(4));
    let e = RepeatRange::exactly(3);
    assert_eq!(e.min, 3);
    assert_eq!(e.max, Some(3));
    let m = RepeatRange::min(2);
    assert_eq!(m.min, 2);
    assert_eq!(m.max, None);
}

#[test]
fn fresh_nfa_holds_one_placeholder_state() {
    let nfa = NFA::new();
    assert_eq!(nfa.states.len(), 1);
    assert_eq!(nfa.start, 0);
    assert_eq!(nfa.accept, 0);
}

#[test]
fn literal_matches_whole_line_only() {
    assert!(run("banana", "banana"));
    assert!(!run("banana", "banan"));
    assert!(!run("banana", "bananas"));
    assert!(!run("an", "banana"));
    assert!(!run("banana", ""));
}

#[test]
fn alternation_matches_either_branch() {
    assert!(run("cat|dog", "cat"));
    assert!(run("cat|dog", "dog"));
    assert!(!run("cat|dog", "catdog"));
    assert!(!run("cat|dog", "cow"));
}

#[test]
fn star_admits_empty_and_repetition() {
    assert!(run("a*", ""));
    assert!(run("a*", "aaa"));
    assert!(!run("a*", "b"));
    assert!(!run("a*", "aab"));
}

#[test]
fn plus_excludes_empty() {
    assert!(!run("a+", ""));
    assert!(run("a+", "a"));
    assert!(run("a+", "aa"));
    assert!(!run("a+", "ab"));
}

#[test]
fn question_bounds_to_zero_or_one() {
    assert!(run("a?", ""));
    assert!(run("a?", "a"));
    assert!(!run("a?", "aa"));
}

#[test]
fn any_char_consumes_exactly_one() {
    assert!(run(".", "x"));
    assert!(run(".", "!"));
    assert!(run(".", "7"));
    assert!(!run(".", ""));
    assert!(!run(".", "xy"));
}

#[test]
fn digit_class_is_a_real_predicate() {
    assert!(run("\\d", "5"));
    assert!(!run("\\d", "a"));
    assert!(run("\\d\\d", "42"));
    assert!(!run("\\d\\d", "4a"));
}

#[test]
fn word_and_space_classes() {
    assert!(run("\\w", "k"));
    assert!(run("\\w", "_"));
    assert!(!run("\\w", "-"));
    assert!(run("\\s", " "));
    assert!(!run("\\s", "x"));
}

#[test]
fn unknown_escape_degrades_to_literal() {
    assert!(run("\\q", "q"));
    assert!(!run("\\q", "r"));
}

#[test]
fn groups_compose_with_quantifiers() {
    assert!(run("(ab)*", ""));
    assert!(run("(ab)*", "abab"));
    assert!(!run("(ab)*", "aba"));
    assert!(run("(ab|c)+", "cabc"));
    assert!(!run("(ab|c)+", ""));
}

#[test]
fn bounded_repeat_counts_copies() {
    assert!(!run("a{2,3}", "a"));
    assert!(run("a{2,3}", "aa"));
    assert!(run("a{2,3}", "aaa"));
    assert!(!run("a{2,3}", "aaaa"));
}

#[test]
fn repeat_without_upper_bound_is_unbounded() {
    assert!(!run("a{2,}", "a"));
    assert!(run("a{2,}", "aa"));
    assert!(run("a{2,}", "aaaaa"));
    assert!(!run("a{2}", "a"));
    assert!(run("a{2}", "aaaa"));
}

#[test]
fn anchors_hold_at_line_edges() {
    assert!(run("^a$", "a"));
    assert!(!run("^a$", "b"));
    assert!(run("\\Aa\\z", "a"));
    assert!(run("\\ba\\b", "a"));
    assert!(!run("\\b-\\b", "-"));
}

#[test]
fn whitespace_in_pattern_is_skipped() {
    assert!(run("a b", "ab"));
    assert!(!run("a b", "a b"));
}

#[test]
fn cli_scenario_plain_match() {
    let nfa = compile("banana");
    let lines = ["apple", "banana", "cherry"];
    let printed: Vec<&str> = lines
        .iter()
        .filter(|line| should_print(nfa.matches(line), false))
        .copied()
        .collect();
    assert_eq!(printed, vec!["banana"]);

    let nfa_an = compile("an");
    let printed_an: Vec<&str> = lines
        .iter()
        .filter(|line| should_print(nfa_an.matches(line), false))
        .copied()
        .collect();
    assert!(printed_an.is_empty());
}

#[test]
fn cli_scenario_invert_match() {
    let nfa = compile("banana");
    let lines = ["apple", "banana", "cherry"];
    let printed: Vec<&str> = lines
        .iter()
        .filter(|line| should_print(nfa.matches(line), true))
        .copied()
        .collect();
    assert_eq!(printed, vec!["apple", "cherry"]);
}
