//! The arguments of a `matches!` invocation: an expression, a comma, one
//! pattern or several separated by `|`, a guard or none, and a comma or none
//! at the end.
//!
//! Where an expression or a list of patterns ends is for the parser of `syn`
//! to say. The expression ends at the first comma in front of which the
//! tokens are one expression; the guard begins at the first `if` behind that
//! comma.

use crate::assertion::MatchGuard;
use crate::syntax::{
    contents, is_single_expression, parse_patterns, parsed_patterns, parses_as_expression,
};
use crate::tokens::{lexemes, slice, stream_tokens, Lexeme, Token};
use proc_macro2::TokenStream;
use vstd::prelude::*;

verus! {

/// Whether `token` is the punctuation character `ch`, joint or alone.
pub open spec fn is_punct(token: Token, ch: char) -> bool {
    token is Punct && token->ch == ch
}

/// Whether `token` is the word `word`.
pub open spec fn is_word(token: Token, word: Seq<char>) -> bool {
    token == Token::Ident(word)
}

/// Whether `tokens` are one of the paths `matches`, `std::matches`,
/// `::matches` and `::std::matches`.
pub open spec fn is_matches_path(tokens: Seq<Token>) -> bool {
    let unrooted = if tokens.len() >= 2 && is_punct(tokens[0], ':') && is_punct(tokens[1], ':') {
        tokens.skip(2)
    } else {
        tokens
    };
    (unrooted.len() == 1 && is_word(unrooted[0], "matches"@)) || (unrooted.len() == 4 && is_word(
        unrooted[0],
        "std"@,
    ) && is_punct(unrooted[1], ':') && is_punct(unrooted[2], ':') && is_word(
        unrooted[3],
        "matches"@,
    ))
}

/// The arguments of the invocation, when `tokens` are an invocation of
/// `matches!` and nothing else: the tokens inside its delimiters.
pub open spec fn matches_invocation(tokens: Seq<Token>) -> Option<Seq<Token>> {
    let count = tokens.len() as int;
    if count >= 3 && is_matches_path(tokens.take(count - 2)) && is_punct(tokens[count - 2], '!')
        && tokens[count - 1] is Group {
        Some(tokens[count - 1]->tokens)
    } else {
        None
    }
}

/// The index of the first comma at or behind `from` in front of which
/// `tokens` are one expression.
pub open spec fn expression_end(tokens: Seq<Token>, from: int) -> Option<int>
    decreases tokens.len() - from,
{
    if from < 0 || from >= tokens.len() {
        None
    } else if is_punct(tokens[from], ',') && is_single_expression(tokens.take(from)) {
        Some(from)
    } else {
        expression_end(tokens, from + 1)
    }
}

/// The index of the first word `word` at or behind `from`.
pub open spec fn first_word(tokens: Seq<Token>, word: Seq<char>, from: int) -> Option<int>
    decreases tokens.len() - from,
{
    if from < 0 || from >= tokens.len() {
        None
    } else if is_word(tokens[from], word) {
        Some(from)
    } else {
        first_word(tokens, word, from + 1)
    }
}

/// `tokens` without the comma at their end, if there is one.
pub open spec fn without_trailing_comma(tokens: Seq<Token>) -> Seq<Token> {
    if tokens.len() > 0 && is_punct(tokens.last(), ',') {
        tokens.drop_last()
    } else {
        tokens
    }
}

/// The guard that `tokens` are: none when there are no tokens, the
/// expression behind `if` when they are `if` and one expression. The outer
/// `None` says that they are neither.
pub open spec fn parsed_guard(tokens: Seq<Token>) -> Option<Option<Seq<Token>>> {
    if tokens.len() == 0 {
        Some(None)
    } else if is_word(tokens[0], "if"@) && is_single_expression(tokens.skip(1)) {
        Some(Some(tokens.skip(1)))
    } else {
        None
    }
}

/// The arguments of a `matches!` invocation by the contents of their token
/// streams.
pub struct StdMatchesArgsView {
    pub expression: Seq<Token>,
    pub pattern: Seq<Seq<Token>>,
    pub guard: Option<Seq<Token>>,
}

/// The arguments of a `matches!` invocation that `tokens` are, or `None`
/// when they are not of that form.
pub open spec fn parsed_matches_arguments(tokens: Seq<Token>) -> Option<StdMatchesArgsView> {
    match expression_end(tokens, 0) {
        None => None,
        Some(end) => {
            let rest = without_trailing_comma(tokens.skip(end + 1));
            let split = match first_word(rest, "if"@, 0) {
                Some(at) => at,
                None => rest.len() as int,
            };
            match (parsed_patterns(rest.take(split)), parsed_guard(rest.skip(split))) {
                (Some(pattern), Some(guard)) => Some(
                    StdMatchesArgsView { expression: tokens.take(end), pattern, guard },
                ),
                _ => None,
            }
        },
    }
}

/// Whether the token that `item` stands for is the punctuation character
/// `ch`.
fn lexeme_is_punct(item: &Lexeme, ch: char) -> (yes: bool)
    ensures
        forall|token: Token| item.stands_for(token) ==> yes == is_punct(token, ch),
{
    match item {
        Lexeme::Punct(found, _) => *found == ch,
        _ => false,
    }
}

/// Whether the token that `item` stands for is the word `word`.
fn lexeme_is_word(item: &Lexeme, word: &str) -> (yes: bool)
    ensures
        forall|token: Token| item.stands_for(token) ==> yes == is_word(token, word@),
{
    match item {
        Lexeme::Ident(found) => *found.as_str() == *word,
        _ => false,
    }
}

/// Whether the first `count` of `items` are a path that names `matches`.
fn names_matches(items: &Vec<Lexeme>, count: usize, Ghost(tokens): Ghost<Seq<Token>>) -> (yes: bool)
    requires
        count <= items@.len(),
        items@.len() <= tokens.len(),
        forall|i: int| 0 <= i < items@.len() ==> (#[trigger] items@[i]).stands_for(tokens[i]),
    ensures
        yes == is_matches_path(tokens.take(count as int)),
{
    let ghost path = tokens.take(count as int);
    let rooted = count >= 2 && lexeme_is_punct(&items[0], ':') && lexeme_is_punct(&items[1], ':');
    let start: usize = if rooted { 2 } else { 0 };
    proof {
        assert(forall|i: int| 0 <= i < count ==> path[i] == tokens[i]);
        assert(forall|i: int| 0 <= i < count ==> (#[trigger] items@[i]).stands_for(path[i]));
    }
    if count - start == 1 {
        lexeme_is_word(&items[start], "matches")
    } else if count - start == 4 {
        lexeme_is_word(&items[start], "std") && lexeme_is_punct(&items[start + 1], ':')
            && lexeme_is_punct(&items[start + 2], ':') && lexeme_is_word(
            &items[start + 3],
            "matches",
        )
    } else {
        false
    }
}

/// The arguments of the invocation, when `operand` is an invocation of
/// `matches!`, by any of its paths and with any delimiter, and nothing else.
pub fn matches_body(operand: &TokenStream) -> (body: Option<TokenStream>)
    ensures
        body is Some == matches_invocation(stream_tokens(*operand)) is Some,
        body is Some ==> matches_invocation(stream_tokens(*operand)) == Some(
            stream_tokens(body->Some_0),
        ),
{
    let ghost tokens = stream_tokens(*operand);
    let mut items = lexemes(operand);
    let count = items.len();
    if count < 3 {
        return None;
    }
    assert(items@[count - 1].stands_for(tokens[count - 1]));
    assert(items@[count - 2].stands_for(tokens[count - 2]));
    if !lexeme_is_punct(&items[count - 2], '!') {
        return None;
    }
    if !names_matches(&items, count - 2, Ghost(tokens)) {
        return None;
    }
    match items.pop() {
        Some(Lexeme::Group(inner)) => Some(inner),
        _ => None,
    }
}

/// The index of the first comma in front of which `stream` is one
/// expression.
fn find_expression_end(stream: &TokenStream, items: &Vec<Lexeme>) -> (end: Option<usize>)
    requires
        items@.len() == stream_tokens(*stream).len(),
        forall|i: int|
            0 <= i < items@.len() ==> (#[trigger] items@[i]).stands_for(stream_tokens(*stream)[i]),
    ensures
        end is Some == expression_end(stream_tokens(*stream), 0) is Some,
        end is Some ==> expression_end(stream_tokens(*stream), 0) == Some(end->Some_0 as int),
        end is Some ==> end->Some_0 < items@.len(),
{
    let ghost tokens = stream_tokens(*stream);
    let mut at: usize = 0;
    while at < items.len()
        invariant
            at <= items@.len(),
            tokens == stream_tokens(*stream),
            items@.len() == tokens.len(),
            forall|i: int| 0 <= i < items@.len() ==> (#[trigger] items@[i]).stands_for(tokens[i]),
            expression_end(tokens, 0) == expression_end(tokens, at as int),
        decreases items@.len() - at,
    {
        assert(items@[at as int].stands_for(tokens[at as int]));
        if lexeme_is_punct(&items[at], ',') {
            let front = slice(stream, 0, at);
            assert(stream_tokens(front) =~= tokens.take(at as int));
            if parses_as_expression(&front) {
                return Some(at);
            }
        }
        at += 1;
    }
    None
}

/// The index of the first word `word` among `items`.
fn find_word(items: &Vec<Lexeme>, word: &str, Ghost(tokens): Ghost<Seq<Token>>) -> (found: Option<usize>)
    requires
        items@.len() == tokens.len(),
        forall|i: int| 0 <= i < items@.len() ==> (#[trigger] items@[i]).stands_for(tokens[i]),
    ensures
        found is Some == first_word(tokens, word@, 0) is Some,
        found is Some ==> first_word(tokens, word@, 0) == Some(found->Some_0 as int),
        found is Some ==> found->Some_0 < items@.len(),
{
    let mut at: usize = 0;
    while at < items.len()
        invariant
            at <= items@.len(),
            items@.len() == tokens.len(),
            forall|i: int| 0 <= i < items@.len() ==> (#[trigger] items@[i]).stands_for(tokens[i]),
            first_word(tokens, word@, 0) == first_word(tokens, word@, at as int),
        decreases items@.len() - at,
    {
        assert(items@[at as int].stands_for(tokens[at as int]));
        if lexeme_is_word(&items[at], word) {
            return Some(at);
        }
        at += 1;
    }
    None
}

impl MatchGuard {
    /// Reads a guard from the tokens behind the patterns: no guard when
    /// there are no tokens, the guard `if expr` when they are `if` and one
    /// expression, and `None` when they are anything else.
    pub fn parse(input: &TokenStream) -> (guard: Option<MatchGuard>)
        ensures
            guard is Some == parsed_guard(stream_tokens(*input)) is Some,
            guard is Some ==> parsed_guard(stream_tokens(*input)) == Some(guard->Some_0@),
    {
        let ghost tokens = stream_tokens(*input);
        let items = lexemes(input);
        if items.len() == 0 {
            return Some(MatchGuard::Absent);
        }
        assert(items@[0].stands_for(tokens[0]));
        if !lexeme_is_word(&items[0], "if") {
            return None;
        }
        let condition = slice(input, 1, items.len());
        assert(stream_tokens(condition) =~= tokens.skip(1));
        if parses_as_expression(&condition) {
            Some(MatchGuard::If(condition))
        } else {
            None
        }
    }
}

/// The arguments of a `matches!` invocation.
#[derive(Debug)]
pub struct StdMatchesArgs {
    /// The expression that is matched against the patterns.
    pub expression: TokenStream,
    /// The patterns, of which there is at least one in the source.
    pub pattern: Vec<TokenStream>,
    /// The guard, which may be absent.
    pub guard: MatchGuard,
}

impl View for StdMatchesArgs {
    type V = StdMatchesArgsView;

    open spec fn view(&self) -> StdMatchesArgsView {
        StdMatchesArgsView {
            expression: stream_tokens(self.expression),
            pattern: contents(self.pattern@),
            guard: self.guard@,
        }
    }
}

impl StdMatchesArgs {
    /// Reads the arguments of a `matches!` invocation, or returns `None`
    /// when `input` is not of their form.
    pub fn parse(input: &TokenStream) -> (arguments: Option<StdMatchesArgs>)
        ensures
            arguments is Some == parsed_matches_arguments(stream_tokens(*input)) is Some,
            arguments is Some ==> parsed_matches_arguments(stream_tokens(*input)) == Some(
                arguments->Some_0@,
            ),
            arguments is Some ==> arguments->Some_0.pattern@.len() > 0,
    {
        let ghost tokens = stream_tokens(*input);
        let items = lexemes(input);
        let end = match find_expression_end(input, &items) {
            Some(end) => end,
            None => {
                return None;
            },
        };
        let count = items.len();
        assert(items@[count - 1].stands_for(tokens[count - 1]));
        let stop = if count - 1 > end && lexeme_is_punct(&items[count - 1], ',') {
            count - 1
        } else {
            count
        };
        let rest = slice(input, end + 1, stop);
        assert(stream_tokens(rest) =~= without_trailing_comma(tokens.skip(end + 1)));
        let rest_items = lexemes(&rest);
        let split = match find_word(&rest_items, "if", Ghost(stream_tokens(rest))) {
            Some(at) => at,
            None => rest_items.len(),
        };
        let patterns = slice(&rest, 0, split);
        let behind_patterns = slice(&rest, split, rest_items.len());
        assert(stream_tokens(patterns) =~= stream_tokens(rest).take(split as int));
        assert(stream_tokens(behind_patterns) =~= stream_tokens(rest).skip(split as int));
        let pattern = match parse_patterns(&patterns) {
            Ok(pattern) => pattern,
            Err(_) => {
                return None;
            },
        };
        let guard = match MatchGuard::parse(&behind_patterns) {
            Some(guard) => guard,
            None => {
                return None;
            },
        };
        let expression = slice(input, 0, end);
        assert(stream_tokens(expression) =~= tokens.take(end as int));
        Some(StdMatchesArgs { expression, pattern, guard })
    }
}

} // verus!
