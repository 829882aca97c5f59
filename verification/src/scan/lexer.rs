//! The scanner: a cursor over a source text that yields one token or lexical
//! error at a time.

use vstd::prelude::*;
use vstd::string::*;

use super::grammar::clip;
use super::grammar::item_view;
use super::grammar::items_from;
use super::grammar::items_view;
use super::grammar::keyword;
use super::grammar::lemma_lexeme_is_source_slice;
use super::grammar::lemma_line_bounds;
use super::grammar::lemma_run_bounds;
use super::grammar::lemma_step_advances;
use super::grammar::line_at;
use super::grammar::run_end;
use super::grammar::step;
use super::grammar::token_start;
use super::grammar::unit;
use super::grammar::unit_end;
use super::grammar::Run;
use super::Error;
use crate::primitives::Literal;
use crate::primitives::TokenType;
use crate::text::blank;
use crate::text::digit;
use crate::text::is_digit;
use crate::text::is_letter;
use crate::text::letter;
use crate::text::same_text;
use crate::token::Token;
use crate::token::TokenModel;

verus! {

/// Looks a word up in the table of reserved words.
pub fn reserved(word: &str) -> (found: Option<TokenType>)
    ensures
        found == keyword(word@),
{
    if same_text(word, "and") {
        Some(TokenType::And)
    } else if same_text(word, "class") {
        Some(TokenType::Class)
    } else if same_text(word, "else") {
        Some(TokenType::Else)
    } else if same_text(word, "false") {
        Some(TokenType::False)
    } else if same_text(word, "for") {
        Some(TokenType::For)
    } else if same_text(word, "fun") {
        Some(TokenType::Fun)
    } else if same_text(word, "if") {
        Some(TokenType::If)
    } else if same_text(word, "nil") {
        Some(TokenType::Nil)
    } else if same_text(word, "or") {
        Some(TokenType::Or)
    } else if same_text(word, "print") {
        Some(TokenType::Print)
    } else if same_text(word, "return") {
        Some(TokenType::Return)
    } else if same_text(word, "super") {
        Some(TokenType::Super)
    } else if same_text(word, "this") {
        Some(TokenType::This)
    } else if same_text(word, "true") {
        Some(TokenType::True)
    } else if same_text(word, "var") {
        Some(TokenType::Var)
    } else if same_text(word, "while") {
        Some(TokenType::While)
    } else {
        None
    }
}

/// A scanner over one source text.
///
/// `index` counts the characters that have been read and `line` is the line
/// on which the next one stands. `length` is the number of characters of
/// `input`, and `finished` says that the end-of-file token has been yielded.
pub struct Lexer<'a> {
    pub input: &'a str,
    pub index: usize,
    pub line: usize,
    pub length: usize,
    pub finished: bool,
}

impl<'a> Lexer<'a> {
    /// The invariant of a scanner: the cursor lies within the text and the
    /// line counter agrees with the newlines read so far.
    pub open spec fn wf(&self) -> bool {
        &&& self.length == self.input@.len()
        &&& self.index <= self.length
        &&& self.line == clip(line_at(self.input@, self.index as int))
        &&& self.finished ==> self.index == self.length
    }

    /// Starts a scanner at the first character of `input`, on line one.
    pub fn new(input: &'a str) -> (lexer: Self)
        ensures
            lexer.wf(),
            lexer.input == input,
            lexer.index == 0,
            lexer.line == 1,
            !lexer.finished,
    {
        Lexer { input, index: 0, line: 1, length: input.unicode_len(), finished: false }
    }

    /// Returns the next character without reading it.
    fn peek(&self) -> (next: Option<char>)
        requires
            self.wf(),
        ensures
            next == if self.index < self.length {
                Some(self.input@[self.index as int])
            } else {
                None
            },
    {
        if self.index < self.length {
            Some(self.input.get_char(self.index))
        } else {
            None
        }
    }

    /// Reads one character and counts the line that a newline ends.
    fn advance(&mut self, c: char)
        requires
            old(self).wf(),
            old(self).index < old(self).length,
            c == old(self).input@[old(self).index as int],
            !old(self).finished,
        ensures
            final(self).wf(),
            final(self).input == old(self).input,
            final(self).index == old(self).index + 1,
            !final(self).finished,
            c != '\n' ==> final(self).line == old(self).line,
    {
        proof {
            lemma_line_bounds(self.input@, self.index as int);
        }
        assert(line_at(self.input@, self.index + 1) == line_at(self.input@, self.index as int)
            + if c == '\n' {
            1int
        } else {
            0int
        });
        self.index += 1;
        if c == '\n' && self.line < usize::MAX {
            self.line += 1;
        }
    }

    /// Reads the longest run of admitted characters.
    fn skip(&mut self, run: Run)
        requires
            old(self).wf(),
            !old(self).finished,
        ensures
            final(self).wf(),
            final(self).input == old(self).input,
            final(self).index == run_end(old(self).input@, old(self).index as int, run),
            !final(self).finished,
            old(self).index <= final(self).index,
            (run == Run::Digits || run == Run::Word || run == Run::Comment) ==> final(self).line
                == old(self).line,
    {
        loop
            invariant
                self.wf(),
                !self.finished,
                self.input == old(self).input,
                old(self).index <= self.index,
                run_end(self.input@, self.index as int, run) == run_end(
                    old(self).input@,
                    old(self).index as int,
                    run,
                ),
                (run == Run::Digits || run == Run::Word || run == Run::Comment) ==> self.line
                    == old(self).line,
            decreases self.length - self.index,
        {
            match self.peek() {
                Some(c) => {
                    if !run.takes(c) {
                        return ;
                    }
                    self.advance(c);
                },
                None => {
                    return ;
                },
            }
        }
    }

    /// Reads `target` if it is the next character and tells which of the two
    /// categories that makes.
    pub fn either(&mut self, target: char, is: TokenType, isnt: TokenType) -> (token_type:
        TokenType)
        requires
            old(self).wf(),
            !old(self).finished,
        ensures
            final(self).wf(),
            final(self).input == old(self).input,
            !final(self).finished,
            old(self).index < old(self).length && old(self).input@[old(self).index as int]
                == target ==> token_type == is && final(self).index == old(self).index + 1,
            !(old(self).index < old(self).length && old(self).input@[old(self).index as int]
                == target) ==> token_type == isnt && final(self).index == old(self).index
                && final(self).line == old(self).line,
            target != '\n' ==> final(self).line == old(self).line,
    {
        match self.peek() {
            Some(c) => {
                if c == target {
                    self.advance(c);
                    is
                } else {
                    isnt
                }
            },
            None => isnt,
        }
    }

    /// Reads a string literal whose opening quote stands at `initial_index`
    /// and has just been read.
    fn string(&mut self, initial_index: usize) -> (item: core::result::Result<Token<'a>, Error>)
        requires
            old(self).wf(),
            !old(self).finished,
            old(self).index == initial_index + 1,
            old(self).input@[initial_index as int] == '"',
        ensures
            final(self).wf(),
            final(self).input == old(self).input,
            !final(self).finished,
            final(self).index == unit_end(old(self).input@, initial_index as int),
            old(self).index <= final(self).index,
            item_view(item) == unit(old(self).input@, initial_index as int),
    {
        let first_line = self.line;
        assert(line_at(self.input@, self.index as int) == line_at(
            self.input@,
            initial_index as int,
        ));
        self.skip(Run::Quoted);
        match self.peek() {
            Some(c) => {
                proof {
                    lemma_run_bounds(self.input@, initial_index + 1, Run::Quoted);
                }
                let close = self.index;
                self.advance(c);
                Ok(
                    Token::new(
                        TokenType::String,
                        self.input.substring_char(initial_index, self.index),
                        Literal::String(
                            self.input.substring_char(initial_index + 1, close).to_owned(),
                        ),
                        self.line,
                    ),
                )
            },
            None => Err(Error::UnterminatedString { line: first_line }),
        }
    }

    /// Reads a number whose first digit stands at `initial_index` and has
    /// just been read.
    fn number(&mut self, initial_index: usize) -> (token: Token<'a>)
        requires
            old(self).wf(),
            !old(self).finished,
            old(self).index == initial_index + 1,
            is_digit(old(self).input@[initial_index as int]),
        ensures
            final(self).wf(),
            final(self).input == old(self).input,
            !final(self).finished,
            final(self).index == unit_end(old(self).input@, initial_index as int),
            old(self).index <= final(self).index,
            Ok::<TokenModel, Error>(token@) == unit(old(self).input@, initial_index as int),
    {
        self.skip(Run::Digits);
        match self.peek() {
            Some(c) => {
                if c == '.' {
                    self.advance(c);
                    self.skip(Run::Digits);
                }
            },
            None => {},
        }
        let slice = self.input.substring_char(initial_index, self.index);
        Token::new(TokenType::Number, slice, Literal::Number(slice.to_owned()), self.line)
    }

    /// Reads an identifier or reserved word whose first character stands at
    /// `initial_index` and has just been read.
    fn identifier(&mut self, initial_index: usize) -> (token: Token<'a>)
        requires
            old(self).wf(),
            !old(self).finished,
            old(self).index == initial_index + 1,
            is_letter(old(self).input@[initial_index as int]),
        ensures
            final(self).wf(),
            final(self).input == old(self).input,
            !final(self).finished,
            final(self).index == unit_end(old(self).input@, initial_index as int),
            old(self).index <= final(self).index,
            Ok::<TokenModel, Error>(token@) == unit(old(self).input@, initial_index as int),
    {
        self.skip(Run::Word);
        let slice = self.input.substring_char(initial_index, self.index);
        let token_type = match reserved(slice) {
            Some(reserved) => reserved,
            None => TokenType::Identifier,
        };
        Token::new(token_type, slice, Literal::Null, self.line)
    }

    /// Yields the next token or lexical error, and nothing once the
    /// end-of-file token has been yielded.
    ///
    /// Whitespace and comments are passed over, and the scanner never goes
    /// back. The lexeme of a yielded token is the source text between the
    /// offset at which the token starts and the offset at which the scanner
    /// stands afterwards.
    pub fn next(&mut self) -> (item: Option<core::result::Result<Token<'a>, Error>>)
        requires
            old(self).wf(),
        ensures
            final(self).wf(),
            final(self).input == old(self).input,
            old(self).index <= final(self).index,
            old(self).finished ==> item is None && *final(self) == *old(self),
            !old(self).finished ==> item is Some && item_view(item->0) == step(
                old(self).input@,
                old(self).index as int,
            ).item && final(self).index == step(old(self).input@, old(self).index as int).end
                && final(self).finished == step(old(self).input@, old(self).index as int).last,
            item matches Some(Ok(token)) ==> token.lexeme@ == old(self).input@.subrange(
                step(old(self).input@, old(self).index as int).start,
                final(self).index as int,
            ),
    {
        if self.finished {
            return None;
        }
        proof {
            lemma_lexeme_is_source_slice(self.input@, self.index as int);
        }
        loop
            invariant
                self.wf(),
                !self.finished,
                !old(self).finished,
                old(self).index <= self.index,
                self.input == old(self).input,
                token_start(self.input@, self.index as int) == token_start(
                    old(self).input@,
                    old(self).index as int,
                ),
                step(old(self).input@, old(self).index as int).item matches Ok(token)
                    ==> token.lexeme == old(self).input@.subrange(
                    step(old(self).input@, old(self).index as int).start,
                    step(old(self).input@, old(self).index as int).end,
                ),
            decreases self.length - self.index,
        {
            let initial_index = self.index;
            let c = match self.peek() {
                Some(c) => c,
                None => {
                    self.finished = true;
                    proof {
                        reveal_strlit("");
                        assert(""@ == Seq::<char>::empty());
                    }
                    return Some(Ok(Token::new(TokenType::EndOfFile, "", Literal::Null, self.line)));
                },
            };
            self.advance(c);
            if blank(c) {
                continue ;
            }
            let token_type = if c == '(' {
                TokenType::LeftParenthesis
            } else if c == ')' {
                TokenType::RightParenthesis
            } else if c == '{' {
                TokenType::LeftBracket
            } else if c == '}' {
                TokenType::RightBracket
            } else if c == '*' {
                TokenType::Asterisk
            } else if c == '.' {
                TokenType::Dot
            } else if c == ',' {
                TokenType::Comma
            } else if c == '+' {
                TokenType::Plus
            } else if c == '-' {
                TokenType::Minus
            } else if c == ';' {
                TokenType::SemiColon
            } else if c == '!' {
                self.either('=', TokenType::BangEqual, TokenType::Bang)
            } else if c == '=' {
                self.either('=', TokenType::EqualEqual, TokenType::Equal)
            } else if c == '>' {
                self.either('=', TokenType::GreaterEqual, TokenType::Greater)
            } else if c == '<' {
                self.either('=', TokenType::LessEqual, TokenType::Less)
            } else if c == '/' {
                let comment = match self.peek() {
                    Some(d) => d == '/',
                    None => false,
                };
                if comment {
                    self.advance('/');
                    self.skip(Run::Comment);
                    proof {
                        lemma_run_bounds(self.input@, initial_index + 2, Run::Comment);
                    }
                    continue ;
                }
                TokenType::Slash
            } else if c == '"' {
                return Some(self.string(initial_index));
            } else if digit(c) {
                return Some(Ok(self.number(initial_index)));
            } else if letter(c) {
                return Some(Ok(self.identifier(initial_index)));
            } else {
                return Some(Err(Error::UnrecognizedCharacter { line: self.line, which: c }));
            };
            let token = Token::new(
                token_type,
                self.input.substring_char(initial_index, self.index),
                Literal::Null,
                self.line,
            );
            return Some(Ok(token));
        }
    }
}

/// Scans a whole source text: every token and lexical error in order, up to
/// and including the end-of-file token.
pub fn tokenize<'a>(input: &'a str) -> (items: Vec<core::result::Result<Token<'a>, Error>>)
    ensures
        items_view(items@) == items_from(input@, 0),
{
    let mut lexer = Lexer::new(input);
    let mut items: Vec<core::result::Result<Token<'a>, Error>> = Vec::new();
    loop
        invariant
            lexer.wf(),
            lexer.input == input,
            !lexer.finished,
            items_view(items@) + items_from(input@, lexer.index as int) == items_from(input@, 0),
        decreases lexer.length - lexer.index,
    {
        let ghost before = items_view(items@);
        let ghost from = lexer.index as int;
        proof {
            lemma_step_advances(input@, from);
        }
        match lexer.next() {
            Some(item) => {
                items.push(item);
                proof {
                    let after = items_view(items@);
                    let rest = items_from(input@, lexer.index as int);
                    assert(after == before + seq![item_view(item)]);
                    if step(input@, from).last {
                        assert(items_from(input@, from) == seq![item_view(item)]);
                    } else {
                        assert(before + (seq![item_view(item)] + rest) == after + rest);
                    }
                }
                if lexer.finished {
                    return items;
                }
            },
            None => {
                return items;
            },
        }
    }
}

} // verus!
