//! The tokenizer: a cursor over the characters of a source text that hands
//! out one token per request.

use vstd::prelude::*;
use crate::chars::{
    is_digit, is_number_part, is_quote, is_whitespace, is_word_part, is_word_start, CharClass,
};
use crate::error::LexError;
use crate::scan::{
    keyword_const, keyword_let, lemma_run_end, lemma_stream_unfold, run_end, scan, string_body,
    stream_from, without_underscores, word_kind, Scan, TokenStream,
};
use crate::token::{Token, TokenKind, TokenView};

verus! {

/// A source text and a cursor into it.
pub struct Lexer {
    source: Vec<char>,
    counter: usize,
}

/// Whether `result` is what a request hands out for the outcome `scan`.
pub open spec fn hands_out(result: Result<Option<Token>, LexError>, scan: Scan) -> bool {
    match scan {
        Scan::End => result matches Ok(None),
        Scan::Token { token, end } => result matches Ok(Some(t)) && t@ == token,
        Scan::Error { error } => result matches Err(e) && e@ == error,
    }
}

/// Where the cursor stands after a request with the outcome `scan`: behind
/// the token, at the end of the source, or at the offending character.
pub open spec fn cursor_after(src: Seq<char>, scan: Scan) -> int {
    match scan {
        Scan::End => src.len() as int,
        Scan::Token { token, end } => end,
        Scan::Error { error } => error.position,
    }
}

/// Whether `result` is what a request hands out where the tokens still to
/// come are `stream`: its first token, or the error where no token is left
/// and the stream broke off, or nothing.
pub open spec fn yields(result: Result<Option<Token>, LexError>, stream: TokenStream) -> bool {
    if stream.tokens.len() > 0 {
        result matches Ok(Some(t)) && t@ == stream.tokens[0]
    } else {
        match stream.error {
            Some(error) => result matches Err(e) && e@ == error,
            None => result matches Ok(None),
        }
    }
}

/// The views of the tokens of `tokens`.
pub open spec fn token_views(tokens: Seq<Token>) -> Seq<TokenView> {
    tokens.map_values(|token: Token| token@)
}

impl Lexer {
    #[verifier::type_invariant]
    spec fn cursor_within(self) -> bool {
        self.counter <= self.source.len()
    }

    /// The source text.
    pub closed spec fn source(&self) -> Seq<char> {
        self.source@
    }

    /// The cursor: the number of characters already consumed.
    pub closed spec fn position(&self) -> int {
        self.counter as int
    }

    /// The tokens that are still to come.
    pub open spec fn stream(&self) -> TokenStream {
        stream_from(self.source(), self.position())
    }

    /// A tokenizer at the start of `content`.
    pub fn new(content: String) -> (lexer: Self)
        ensures
            lexer.source() == content@,
            lexer.position() == 0,
    {
        let mut source: Vec<char> = Vec::new();
        for c in it: content.as_str().chars()
            invariant
                it.seq() == content@,
                source@ == content@.take(it.index() as int),
        {
            source.push(c);
        }
        Self { source, counter: 0 }
    }

    /// The character at the cursor.
    pub fn current_char(&self) -> (c: char)
        requires
            self.position() < self.source().len(),
        ensures
            c == self.source()[self.position()],
    {
        self.source[self.counter]
    }

    /// Moves the cursor to the next character, if there is one, and says
    /// whether it did. On the last character, and behind it, the cursor stays
    /// where it is: stepping this way never takes it out of the source.
    pub fn inc(&mut self) -> (more: bool)
        ensures
            final(self).source() == old(self).source(),
            more == (old(self).position() + 1 < old(self).source().len()),
            final(self).position() == if more {
                old(self).position() + 1
            } else {
                old(self).position()
            },
    {
        if self.source.len() > 0 && self.counter < self.source.len() - 1 {
            self.counter += 1;
            true
        } else {
            false
        }
    }

    fn skip_whitespace(&mut self)
        ensures
            final(self).source() == old(self).source(),
            final(self).position() == run_end(
                old(self).source(),
                old(self).position(),
                CharClass::Whitespace,
            ),
    {
        proof {
            use_type_invariant(&*self);
        }
        while self.counter < self.source.len() && is_whitespace(self.source[self.counter])
            invariant
                self.source == old(self).source,
                self.counter <= self.source.len(),
                run_end(self.source@, self.counter as int, CharClass::Whitespace) == run_end(
                    old(self).source@,
                    old(self).counter as int,
                    CharClass::Whitespace,
                ),
            decreases self.source.len() - self.counter,
        {
            self.counter += 1;
        }
    }

    /// Consumes the single character at the cursor as a token of `kind`.
    fn take_symbol(&mut self, kind: TokenKind) -> (token: Token)
        requires
            old(self).position() < old(self).source().len(),
        ensures
            final(self).source() == old(self).source(),
            final(self).position() == old(self).position() + 1,
            token@ == (TokenView {
                kind,
                literal: seq![old(self).source()[old(self).position()]],
            }),
    {
        proof {
            use_type_invariant(&*self);
        }
        let mut literal = String::new();
        literal.push(self.current_char());
        self.counter += 1;
        assert(literal@ =~= seq![old(self).source()[old(self).position()]]);
        Token::new(kind, literal)
    }

    /// Consumes a string literal whose opening quote has been consumed.
    fn take_string(&mut self, closing: char) -> (text: String)
        ensures
            final(self).source() == old(self).source(),
            text@ == string_body(old(self).source(), old(self).position(), closing).0,
            final(self).position() == string_body(
                old(self).source(),
                old(self).position(),
                closing,
            ).1,
    {
        proof {
            use_type_invariant(&*self);
        }
        let ghost whole = string_body(self.source@, self.counter as int, closing);
        let mut buffer = String::new();
        let mut open = true;
        while open
            invariant
                self.source == old(self).source,
                self.counter <= self.source.len(),
                open ==> whole == (
                    buffer@ + string_body(self.source@, self.counter as int, closing).0,
                    string_body(self.source@, self.counter as int, closing).1,
                ),
                !open ==> whole == (buffer@, self.counter as int),
            decreases self.source.len() - self.counter, if open { 1int } else { 0int },
        {
            if self.counter >= self.source.len() {
                assert(buffer@ + Seq::<char>::empty() =~= buffer@);
                open = false;
            } else if self.source[self.counter] == closing {
                assert(buffer@ + Seq::<char>::empty() =~= buffer@);
                self.counter += 1;
                open = false;
            } else if self.source[self.counter] == '\\' {
                if self.counter + 1 >= self.source.len() {
                    assert(buffer@ + Seq::<char>::empty() =~= buffer@);
                    self.counter = self.source.len();
                    open = false;
                } else {
                    let ghost rest = string_body(self.source@, self.counter + 2, closing);
                    let c = self.source[self.counter + 1];
                    assert(buffer@.push(c) + rest.0 =~= buffer@ + (seq![c] + rest.0));
                    buffer.push(c);
                    self.counter += 2;
                }
            } else {
                let ghost rest = string_body(self.source@, self.counter + 1, closing);
                let c = self.source[self.counter];
                assert(buffer@.push(c) + rest.0 =~= buffer@ + (seq![c] + rest.0));
                buffer.push(c);
                self.counter += 1;
            }
        }
        buffer
    }

    /// Consumes a maximal run of digits, `.` and `_`, and captures it without
    /// the underscores.
    fn take_number(&mut self) -> (text: String)
        ensures
            final(self).source() == old(self).source(),
            final(self).position() == run_end(
                old(self).source(),
                old(self).position(),
                CharClass::NumberPart,
            ),
            text@ == without_underscores(
                old(self).source().subrange(old(self).position(), final(self).position()),
            ),
    {
        proof {
            use_type_invariant(&*self);
        }
        let start = self.counter;
        let mut buffer = String::new();
        proof {
            reveal(Seq::filter);
            assert(self.source@.subrange(start as int, start as int) =~= Seq::<char>::empty());
        }
        while self.counter < self.source.len() && is_number_part(self.source[self.counter])
            invariant
                self.source == old(self).source,
                start == old(self).counter,
                start <= self.counter <= self.source.len(),
                run_end(self.source@, self.counter as int, CharClass::NumberPart) == run_end(
                    self.source@,
                    start as int,
                    CharClass::NumberPart,
                ),
                buffer@ == without_underscores(
                    self.source@.subrange(start as int, self.counter as int),
                ),
            decreases self.source.len() - self.counter,
        {
            let c = self.source[self.counter];
            proof {
                let before = self.source@.subrange(start as int, self.counter as int);
                let after = self.source@.subrange(start as int, self.counter + 1);
                assert(after =~= before.push(c));
                assert(after.drop_last() =~= before);
                reveal(Seq::filter);
            }
            if c != '_' {
                buffer.push(c);
            }
            self.counter += 1;
        }
        buffer
    }

    /// Consumes a maximal run of letters, numeric characters and `_`.
    fn take_word(&mut self) -> (text: String)
        ensures
            final(self).source() == old(self).source(),
            final(self).position() == run_end(
                old(self).source(),
                old(self).position(),
                CharClass::WordPart,
            ),
            text@ == old(self).source().subrange(old(self).position(), final(self).position()),
    {
        proof {
            use_type_invariant(&*self);
        }
        let start = self.counter;
        let mut buffer = String::new();
        assert(self.source@.subrange(start as int, start as int) =~= Seq::<char>::empty());
        while self.counter < self.source.len() && is_word_part(self.source[self.counter])
            invariant
                self.source == old(self).source,
                start == old(self).counter,
                start <= self.counter <= self.source.len(),
                run_end(self.source@, self.counter as int, CharClass::WordPart) == run_end(
                    self.source@,
                    start as int,
                    CharClass::WordPart,
                ),
                buffer@ == self.source@.subrange(start as int, self.counter as int),
            decreases self.source.len() - self.counter,
        {
            let c = self.source[self.counter];
            assert(self.source@.subrange(start as int, self.counter + 1)
                =~= self.source@.subrange(start as int, self.counter as int).push(c));
            buffer.push(c);
            self.counter += 1;
        }
        buffer
    }

    /// Whether the characters from `start` up to the cursor spell one of the
    /// two declarators.
    fn spells_declarator(&self, start: usize) -> (yes: bool)
        requires
            start <= self.position() <= self.source().len(),
        ensures
            yes == (word_kind(self.source().subrange(start as int, self.position()))
                == TokenKind::Declarator),
    {
        let ghost text = self.source@.subrange(start as int, self.counter as int);
        let length = self.counter - start;
        if length == 3 {
            let yes = self.source[start] == 'l' && self.source[start + 1] == 'e'
                && self.source[start + 2] == 't';
            assert(yes ==> text =~= keyword_let());
            assert(!yes ==> text != keyword_let()) by {
                if text == keyword_let() {
                    assert(text[0] == 'l' && text[1] == 'e' && text[2] == 't');
                }
            }
            assert(text.len() != keyword_const().len());
            yes
        } else if length == 5 {
            let yes = self.source[start] == 'c' && self.source[start + 1] == 'o'
                && self.source[start + 2] == 'n' && self.source[start + 3] == 's'
                && self.source[start + 4] == 't';
            assert(yes ==> text =~= keyword_const());
            assert(!yes ==> text != keyword_const()) by {
                if text == keyword_const() {
                    assert(text[0] == 'c' && text[1] == 'o' && text[2] == 'n' && text[3] == 's'
                        && text[4] == 't');
                }
            }
            assert(text.len() != keyword_let().len());
            yes
        } else {
            assert(text.len() != keyword_let().len());
            assert(text.len() != keyword_const().len());
            false
        }
    }

    /// Produces the next token and moves the cursor behind it. At the end of
    /// the source there is no token; a character that begins none is an
    /// error, and the cursor stays at it.
    pub fn next(&mut self) -> (result: Result<Option<Token>, LexError>)
        ensures
            final(self).source() == old(self).source(),
            hands_out(result, scan(old(self).source(), old(self).position())),
            final(self).position() == cursor_after(
                old(self).source(),
                scan(old(self).source(), old(self).position()),
            ),
            yields(result, old(self).stream()),
            final(self).stream() == old(self).stream().rest(),
    {
        proof {
            use_type_invariant(&*self);
            lemma_stream_unfold(self.source@, self.counter as int);
        }
        self.skip_whitespace();
        proof {
            use_type_invariant(&*self);
        }
        if self.counter >= self.source.len() {
            return Ok(None);
        }
        let start = self.counter;
        let c = self.current_char();
        if c == ';' {
            Ok(Some(self.take_symbol(TokenKind::EndOfLine)))
        } else if c == '=' {
            Ok(Some(self.take_symbol(TokenKind::OperatorAssignment)))
        } else if c == '+' {
            Ok(Some(self.take_symbol(TokenKind::OperatorInfixPlus)))
        } else if c == '-' {
            Ok(Some(self.take_symbol(TokenKind::OperatorInfixMinus)))
        } else if c == '*' {
            Ok(Some(self.take_symbol(TokenKind::OperatorInfixMultiply)))
        } else if c == '/' {
            Ok(Some(self.take_symbol(TokenKind::OperatorInfixDivide)))
        } else if is_quote(c) {
            self.counter += 1;
            let text = self.take_string(c);
            Ok(Some(Token::new(TokenKind::LiteralString, text)))
        } else if is_digit(c) {
            let text = self.take_number();
            Ok(Some(Token::new(TokenKind::Number, text)))
        } else if is_word_start(c) {
            let text = self.take_word();
            proof {
                lemma_run_end(self.source@, start as int, CharClass::WordPart);
            }
            let kind = if self.spells_declarator(start) {
                TokenKind::Declarator
            } else {
                TokenKind::Identifier
            };
            Ok(Some(Token::new(kind, text)))
        } else {
            Err(LexError { character: c, position: start })
        }
    }

    /// All the tokens from the cursor to the end of the source, or the first
    /// character on the way that begins none.
    pub fn lex(&mut self) -> (result: Result<Vec<Token>, LexError>)
        ensures
            final(self).source() == old(self).source(),
            match result {
                Ok(tokens) => {
                    &&& old(self).stream().error is None
                    &&& token_views(tokens@) == old(self).stream().tokens
                    &&& final(self).position() == old(self).source().len()
                },
                Err(e) => {
                    &&& old(self).stream().error == Some(e@)
                    &&& final(self).position() == e.position
                },
            },
    {
        let mut tokens: Vec<Token> = Vec::new();
        loop
            invariant
                self.source() == old(self).source(),
                self.stream().error == old(self).stream().error,
                old(self).stream().tokens == token_views(tokens@) + self.stream().tokens,
            decreases self.stream().tokens.len(),
        {
            let ghost before = self.stream();
            match self.next() {
                Err(e) => {
                    return Err(e);
                },
                Ok(None) => {
                    assert(token_views(tokens@) + before.tokens =~= token_views(tokens@));
                    return Ok(tokens);
                },
                Ok(Some(token)) => {
                    proof {
                        assert(token_views(tokens@.push(token)) =~= token_views(tokens@).push(
                            token@,
                        ));
                        assert(token_views(tokens@).push(token@) + before.tokens.skip(1)
                            =~= token_views(tokens@) + before.tokens);
                    }
                    tokens.push(token);
                },
            }
        }
    }

    /// The next token, without moving the cursor: a request that follows
    /// yields the same.
    pub fn peek(&mut self) -> (result: Result<Option<Token>, LexError>)
        ensures
            final(self).source() == old(self).source(),
            final(self).position() == old(self).position(),
            hands_out(result, scan(old(self).source(), old(self).position())),
            yields(result, old(self).stream()),
    {
        proof {
            use_type_invariant(&*self);
        }
        let saved = self.counter;
        let result = self.next();
        self.counter = saved;
        result
    }
}

} // verus!
