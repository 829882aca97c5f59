//! The lexical grammar: where whitespace and comments end, which lexical unit
//! starts at an offset and where it ends, and what a scan of a whole text
//! yields.

use vstd::prelude::*;

use super::Error;
use crate::primitives::LiteralModel;
use crate::primitives::TokenType;
use crate::text::digit;
use crate::text::is_blank;
use crate::text::is_digit;
use crate::text::is_letter;
use crate::text::is_word;
use crate::text::word;
use crate::token::Token;
use crate::token::TokenModel;

verus! {

/// A class of characters that a token takes as many of as it can.
#[derive(Debug, PartialEq, Eq, Clone, Copy, Structural)]
pub enum Run {
    /// Decimal digits.
    Digits,
    /// Letters, digits and `_`.
    Word,
    /// Everything but the closing quote of a string.
    Quoted,
    /// Everything but the newline that ends a comment.
    Comment,
}

impl Run {
    pub open spec fn admits(self, c: char) -> bool {
        match self {
            Run::Digits => is_digit(c),
            Run::Word => is_word(c),
            Run::Quoted => c != '"',
            Run::Comment => c != '\n',
        }
    }

    /// Tells whether the class admits a character.
    pub fn takes(&self, c: char) -> (yes: bool)
        ensures
            yes == self.admits(c),
    {
        match self {
            Run::Digits => digit(c),
            Run::Word => word(c),
            Run::Quoted => c != '"',
            Run::Comment => c != '\n',
        }
    }
}

/// The offset at which the longest run of admitted characters that starts
/// at `from` ends: the first offset from there on that holds no admitted
/// character, or the length of the text.
pub open spec fn run_end(src: Seq<char>, from: int, run: Run) -> int
    decreases src.len() - from,
{
    if 0 <= from < src.len() && run.admits(src[from]) {
        run_end(src, from + 1, run)
    } else {
        from
    }
}

/// The number of the line on which offset `at` stands: one more than the
/// newlines before it.
pub open spec fn line_at(src: Seq<char>, at: int) -> int
    decreases at,
{
    if at <= 0 {
        1
    } else {
        line_at(src, at - 1) + if at <= src.len() && src[at - 1] == '\n' {
            1int
        } else {
            0int
        }
    }
}

/// A line number as the scanner holds it: it stops at the largest `usize`.
pub open spec fn clip(line: int) -> usize {
    if line > usize::MAX {
        usize::MAX
    } else if line < 0 {
        0
    } else {
        line as usize
    }
}

/// The reserved word that a text spells, if it spells one.
pub open spec fn keyword(word: Seq<char>) -> Option<TokenType> {
    if word == "and"@ {
        Some(TokenType::And)
    } else if word == "class"@ {
        Some(TokenType::Class)
    } else if word == "else"@ {
        Some(TokenType::Else)
    } else if word == "false"@ {
        Some(TokenType::False)
    } else if word == "for"@ {
        Some(TokenType::For)
    } else if word == "fun"@ {
        Some(TokenType::Fun)
    } else if word == "if"@ {
        Some(TokenType::If)
    } else if word == "nil"@ {
        Some(TokenType::Nil)
    } else if word == "or"@ {
        Some(TokenType::Or)
    } else if word == "print"@ {
        Some(TokenType::Print)
    } else if word == "return"@ {
        Some(TokenType::Return)
    } else if word == "super"@ {
        Some(TokenType::Super)
    } else if word == "this"@ {
        Some(TokenType::This)
    } else if word == "true"@ {
        Some(TokenType::True)
    } else if word == "var"@ {
        Some(TokenType::Var)
    } else if word == "while"@ {
        Some(TokenType::While)
    } else {
        None
    }
}

/// Whether a character forms a two-character operator with a `=` behind it.
pub open spec fn pairs(c: char) -> bool {
    c == '!' || c == '=' || c == '>' || c == '<'
}

/// The category of the punctuation or operator that starts with `c`, where
/// `paired` says that a `=` follows it.
pub open spec fn symbol(c: char, paired: bool) -> Option<TokenType> {
    if c == '(' {
        Some(TokenType::LeftParenthesis)
    } else if c == ')' {
        Some(TokenType::RightParenthesis)
    } else if c == '{' {
        Some(TokenType::LeftBracket)
    } else if c == '}' {
        Some(TokenType::RightBracket)
    } else if c == '*' {
        Some(TokenType::Asterisk)
    } else if c == '.' {
        Some(TokenType::Dot)
    } else if c == ',' {
        Some(TokenType::Comma)
    } else if c == '+' {
        Some(TokenType::Plus)
    } else if c == '-' {
        Some(TokenType::Minus)
    } else if c == ';' {
        Some(TokenType::SemiColon)
    } else if c == '/' {
        Some(TokenType::Slash)
    } else if c == '!' {
        Some(
            if paired {
                TokenType::BangEqual
            } else {
                TokenType::Bang
            },
        )
    } else if c == '=' {
        Some(
            if paired {
                TokenType::EqualEqual
            } else {
                TokenType::Equal
            },
        )
    } else if c == '>' {
        Some(
            if paired {
                TokenType::GreaterEqual
            } else {
                TokenType::Greater
            },
        )
    } else if c == '<' {
        Some(
            if paired {
                TokenType::LessEqual
            } else {
                TokenType::Less
            },
        )
    } else {
        None
    }
}

/// Whether a `=` stands right behind offset `at`.
pub open spec fn equal_follows(src: Seq<char>, at: int) -> bool {
    at + 1 < src.len() && src[at + 1] == '='
}

/// Whether a comment starts at offset `at`.
pub open spec fn comment_starts(src: Seq<char>, at: int) -> bool {
    0 <= at && at + 1 < src.len() && src[at] == '/' && src[at + 1] == '/'
}

/// The offset of the first character from `from` on that is neither
/// whitespace nor part of a comment, or the length of the text where there
/// is none.
pub open spec fn token_start(src: Seq<char>, from: int) -> int
    decreases src.len() - from,
{
    if from < 0 || from >= src.len() {
        from
    } else if is_blank(src[from]) {
        token_start(src, from + 1)
    } else if comment_starts(src, from) {
        proof {
            lemma_run_bounds(src, from + 2, Run::Comment);
        }
        token_start(src, run_end(src, from + 2, Run::Comment))
    } else {
        from
    }
}

/// The offset at which the number that starts at `start` ends: digits, then
/// at most one `.` and the digits behind it.
pub open spec fn number_end(src: Seq<char>, start: int) -> int {
    let whole = run_end(src, start, Run::Digits);
    if whole < src.len() && src[whole] == '.' {
        run_end(src, whole + 1, Run::Digits)
    } else {
        whole
    }
}

/// Whether a text is a numeral: digits, the first of them in front, with at
/// most one `.` among or behind them.
pub open spec fn is_numeral(text: Seq<char>) -> bool {
    &&& text.len() > 0
    &&& is_digit(text[0])
    &&& forall|i: int| 0 <= i < text.len() ==> is_digit(#[trigger] text[i]) || text[i] == '.'
    &&& forall|i: int, j: int|
        0 <= i < j < text.len() && #[trigger] text[i] == '.' ==> #[trigger] text[j] != '.'
}

/// The offset at which the lexical unit that starts at `start` ends.
pub open spec fn unit_end(src: Seq<char>, start: int) -> int {
    let c = src[start];
    if c == '"' {
        let close = run_end(src, start + 1, Run::Quoted);
        if close < src.len() {
            close + 1
        } else {
            close
        }
    } else if is_digit(c) {
        number_end(src, start)
    } else if is_letter(c) {
        run_end(src, start, Run::Word)
    } else if pairs(c) && equal_follows(src, start) {
        start + 2
    } else {
        start + 1
    }
}

/// The lexical unit that starts at offset `start`, which holds neither
/// whitespace nor the start of a comment.
///
/// The lexeme of a token is the text between `start` and `unit_end`. A token
/// carries the line on which it ends, an unterminated string the line on
/// which it starts.
pub open spec fn unit(src: Seq<char>, start: int) -> core::result::Result<TokenModel, Error> {
    let c = src[start];
    let end = unit_end(src, start);
    let lexeme = src.subrange(start, end);
    let line = clip(line_at(src, end));
    if c == '"' {
        if run_end(src, start + 1, Run::Quoted) < src.len() {
            Ok(
                TokenModel {
                    token_type: TokenType::String,
                    lexeme,
                    literal: LiteralModel::String(src.subrange(start + 1, end - 1)),
                    line,
                },
            )
        } else {
            Err(Error::UnterminatedString { line: clip(line_at(src, start)) })
        }
    } else if is_digit(c) {
        Ok(
            TokenModel {
                token_type: TokenType::Number,
                lexeme,
                literal: LiteralModel::Number(lexeme),
                line,
            },
        )
    } else if is_letter(c) {
        Ok(
            TokenModel {
                token_type: match keyword(lexeme) {
                    Some(reserved) => reserved,
                    None => TokenType::Identifier,
                },
                lexeme,
                literal: LiteralModel::Null,
                line,
            },
        )
    } else {
        match symbol(c, equal_follows(src, start)) {
            Some(token_type) => Ok(
                TokenModel { token_type, lexeme, literal: LiteralModel::Null, line },
            ),
            None => Err(Error::UnrecognizedCharacter { line, which: c }),
        }
    }
}

/// The token that closes every token sequence.
pub open spec fn end_of_file(src: Seq<char>) -> TokenModel {
    TokenModel {
        token_type: TokenType::EndOfFile,
        lexeme: Seq::empty(),
        literal: LiteralModel::Null,
        line: clip(line_at(src, src.len() as int)),
    }
}

/// One step of the scanner from offset `from`: what it yields and where it
/// stands afterwards.
pub struct Step {
    pub item: core::result::Result<TokenModel, Error>,
    /// The offset at which the yielded unit starts.
    pub start: int,
    /// The offset behind the yielded unit.
    pub end: int,
    /// Whether the yielded token is the end of the sequence.
    pub last: bool,
}

pub open spec fn step(src: Seq<char>, from: int) -> Step {
    let start = token_start(src, from);
    if start >= src.len() {
        Step { item: Ok(end_of_file(src)), start, end: start, last: true }
    } else {
        Step { item: unit(src, start), start, end: unit_end(src, start), last: false }
    }
}

/// Everything the scanner yields from offset `from` on, in order.
pub open spec fn items_from(src: Seq<char>, from: int) -> Seq<
    core::result::Result<TokenModel, Error>,
>
    decreases src.len() - from,
{
    let now = step(src, from);
    if now.last || from < 0 {
        seq![now.item]
    } else {
        proof {
            lemma_step_advances(src, from);
        }
        seq![now.item] + items_from(src, now.end)
    }
}

/// What a scanned item holds, as mathematical values.
pub open spec fn item_view(item: core::result::Result<Token<'_>, Error>) -> core::result::Result<
    TokenModel,
    Error,
> {
    match item {
        Ok(token) => Ok(token@),
        Err(error) => Err(error),
    }
}

/// Line numbers start at one.
pub proof fn lemma_line_bounds(src: Seq<char>, at: int)
    ensures
        line_at(src, at) >= 1,
    decreases at,
{
    if at > 0 {
        lemma_line_bounds(src, at - 1);
    }
}

/// What the scanned items hold, as mathematical values.
pub open spec fn items_view(items: Seq<core::result::Result<Token<'_>, Error>>) -> Seq<
    core::result::Result<TokenModel, Error>,
> {
    items.map_values(|item: core::result::Result<Token<'_>, Error>| item_view(item))
}

/// A run ends at or behind its start and within the text, holds admitted
/// characters only, and is followed by none.
pub proof fn lemma_run_bounds(src: Seq<char>, from: int, run: Run)
    requires
        0 <= from <= src.len(),
    ensures
        from <= run_end(src, from, run) <= src.len(),
        forall|i: int| from <= i < run_end(src, from, run) ==> run.admits(#[trigger] src[i]),
        run_end(src, from, run) < src.len() ==> !run.admits(src[run_end(src, from, run)]),
    decreases src.len() - from,
{
    if from < src.len() && run.admits(src[from]) {
        lemma_run_bounds(src, from + 1, run);
    }
}

/// The first token start from `from` on lies at or behind `from` and within
/// the text, and holds neither whitespace nor the start of a comment.
pub proof fn lemma_token_start_bounds(src: Seq<char>, from: int)
    requires
        0 <= from <= src.len(),
    ensures
        from <= token_start(src, from) <= src.len(),
        token_start(src, from) < src.len() ==> !is_blank(src[token_start(src, from)])
            && !comment_starts(src, token_start(src, from)),
    decreases src.len() - from,
{
    if from < src.len() {
        if is_blank(src[from]) {
            lemma_token_start_bounds(src, from + 1);
        } else if comment_starts(src, from) {
            lemma_run_bounds(src, from + 2, Run::Comment);
            lemma_token_start_bounds(src, run_end(src, from + 2, Run::Comment));
        }
    }
}

/// Every lexical unit takes at least one character and ends within the text.
pub proof fn lemma_unit_bounds(src: Seq<char>, start: int)
    requires
        0 <= start < src.len(),
    ensures
        start < unit_end(src, start) <= src.len(),
{
    let c = src[start];
    lemma_run_bounds(src, start + 1, Run::Quoted);
    lemma_run_bounds(src, start + 1, Run::Digits);
    lemma_run_bounds(src, start + 1, Run::Word);
    if is_digit(c) {
        let whole = run_end(src, start, Run::Digits);
        if whole < src.len() {
            lemma_run_bounds(src, whole + 1, Run::Digits);
        }
    }
}

/// A step that does not end the sequence leaves the scanner further on.
pub proof fn lemma_step_advances(src: Seq<char>, from: int)
    requires
        0 <= from,
    ensures
        !step(src, from).last ==> from < step(src, from).end <= src.len(),
        from <= src.len() ==> from <= step(src, from).start <= step(src, from).end <= src.len(),
{
    if from <= src.len() {
        lemma_token_start_bounds(src, from);
        let start = token_start(src, from);
        if start < src.len() {
            lemma_unit_bounds(src, start);
        }
    }
}

/// The lexeme of every token is the source text between the offset at which
/// the token starts and the offset at which it ends.
pub proof fn lemma_lexeme_is_source_slice(src: Seq<char>, from: int)
    requires
        0 <= from <= src.len(),
    ensures
        step(src, from).item matches Ok(token) ==> token.lexeme == src.subrange(
            step(src, from).start,
            step(src, from).end,
        ),
{
    lemma_step_advances(src, from);
    let now = step(src, from);
    if now.last {
        assert(src.subrange(now.start, now.end) == Seq::<char>::empty());
    }
}

/// The items scanned from any offset end with the end-of-file token, and no
/// item before the last is one.
pub proof fn lemma_one_end_of_file(src: Seq<char>, from: int)
    requires
        0 <= from <= src.len(),
    ensures
        items_from(src, from).len() >= 1,
        items_from(src, from).last() == Ok::<TokenModel, Error>(end_of_file(src)),
        forall|i: int|
            0 <= i < items_from(src, from).len() - 1 ==> !(#[trigger] items_from(src, from)[i]
                matches Ok(token) && token.token_type == TokenType::EndOfFile),
    decreases src.len() - from,
{
    let now = step(src, from);
    lemma_step_advances(src, from);
    if !now.last {
        lemma_one_end_of_file(src, now.end);
        let rest = items_from(src, now.end);
        let all = items_from(src, from);
        assert(all == seq![now.item] + rest);
        assert(all.last() == rest.last());
        lemma_unit_is_no_end_of_file(src, now.start);
        assert forall|i: int| 0 <= i < all.len() - 1 implies !(#[trigger] all[i] matches Ok(token)
            && token.token_type == TokenType::EndOfFile) by {
            if i > 0 {
                assert(all[i] == rest[i - 1]);
            }
        }
    }
}

/// No lexical unit inside the text is an end-of-file token.
pub proof fn lemma_unit_is_no_end_of_file(src: Seq<char>, start: int)
    ensures
        !(unit(src, start) matches Ok(token) && token.token_type == TokenType::EndOfFile),
{
    let c = src[start];
    let end = unit_end(src, start);
    let lexeme = src.subrange(start, end);
    if c != '"' && !is_digit(c) && is_letter(c) {
        assert(keyword(lexeme) != Some(TokenType::EndOfFile));
    }
}

/// The literal of every scanned token is of the token's category.
pub proof fn lemma_literals_fit(src: Seq<char>, from: int)
    requires
        0 <= from <= src.len(),
    ensures
        forall|i: int|
            0 <= i < items_from(src, from).len() ==> ((#[trigger] items_from(src, from)[i])
                matches Ok(token) ==> token.literal_fits()),
    decreases src.len() - from,
{
    let now = step(src, from);
    lemma_step_advances(src, from);
    if !now.last {
        lemma_literals_fit(src, now.end);
        let rest = items_from(src, now.end);
        let all = items_from(src, from);
        assert(all == seq![now.item] + rest);
        let start = now.start;
        if is_letter(src[start]) && src[start] != '"' && !is_digit(src[start]) {
            let lexeme = src.subrange(start, unit_end(src, start));
            assert(keyword(lexeme) != Some(TokenType::Number));
            assert(keyword(lexeme) != Some(TokenType::String));
        }
        assert forall|i: int| 0 <= i < all.len() implies ((#[trigger] all[i]) matches Ok(token)
            ==> token.literal_fits()) by {
            if i > 0 {
                assert(all[i] == rest[i - 1]);
            }
        }
    }
}

/// Every number token carries its lexeme as its literal, and that lexeme is
/// a numeral.
pub proof fn lemma_number_is_numeral(src: Seq<char>, start: int)
    requires
        0 <= start < src.len(),
    ensures
        unit(src, start) matches Ok(token) ==> (token.token_type == TokenType::Number
            ==> is_numeral(token.lexeme) && token.literal == LiteralModel::Number(token.lexeme)),
{
    let c = src[start];
    if c != '"' && is_digit(c) {
        let whole = run_end(src, start, Run::Digits);
        let end = unit_end(src, start);
        let lexeme = src.subrange(start, end);
        lemma_run_bounds(src, start, Run::Digits);
        if whole < src.len() && src[whole] == '.' {
            lemma_run_bounds(src, whole + 1, Run::Digits);
        }
        assert forall|i: int| 0 <= i < lexeme.len() implies is_digit(#[trigger] lexeme[i])
            || lexeme[i] == '.' by {
            assert(lexeme[i] == src[start + i]);
        }
        assert forall|i: int, j: int|
            0 <= i < j < lexeme.len() && #[trigger] lexeme[i] == '.' implies #[trigger] lexeme[j]
            != '.' by {
            assert(lexeme[i] == src[start + i]);
            assert(lexeme[j] == src[start + j]);
        }
        assert(lexeme[0] == src[start]);
    } else if c != '"' && is_letter(c) {
        let lexeme = src.subrange(start, unit_end(src, start));
        assert(keyword(lexeme) != Some(TokenType::Number));
    }
}

} // verus!
