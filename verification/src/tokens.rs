//! Token streams: what the expansion is made of.

use vstd::prelude::*;

verus! {

/// A piece of a token stream. No token spans two pieces.
pub enum Token {
    /// A run of source text.
    Code(String),
    /// The string literal with this value.
    Str(String),
    /// The integer literal with this value and the suffix `usize`.
    Usize(usize),
}

/// The mathematical value of a [`Token`].
pub enum TokenView {
    Code(Seq<char>),
    Str(Seq<char>),
    Usize(usize),
}

impl View for Token {
    type V = TokenView;

    open spec fn view(&self) -> TokenView {
        match self {
            Token::Code(text) => TokenView::Code(text@),
            Token::Str(value) => TokenView::Str(value@),
            Token::Usize(value) => TokenView::Usize(*value),
        }
    }
}

/// A sequence of pieces of source.
pub struct TokenStream {
    pub tokens: Vec<Token>,
}

impl View for TokenStream {
    type V = Seq<TokenView>;

    open spec fn view(&self) -> Seq<TokenView> {
        self.tokens@.map_values(|t: Token| t@)
    }
}

/// The empty stream.
pub open spec fn nothing() -> Seq<TokenView> {
    Seq::empty()
}

/// A stream of source text.
pub open spec fn code(text: Seq<char>) -> Seq<TokenView> {
    seq![TokenView::Code(text)]
}

/// A string literal.
pub open spec fn string(value: Seq<char>) -> Seq<TokenView> {
    seq![TokenView::Str(value)]
}

/// A `usize` literal.
pub open spec fn number(value: usize) -> Seq<TokenView> {
    seq![TokenView::Usize(value)]
}

/// `true` or `false`.
pub open spec fn flag(value: bool) -> Seq<TokenView> {
    if value {
        code("true"@)
    } else {
        code("false"@)
    }
}

/// `Some("...")` or `None`.
pub open spec fn optional_string(value: Option<String>) -> Seq<TokenView> {
    match value {
        Some(s) => code("Some("@) + string(s@) + code(")"@),
        None => code("None"@),
    }
}

impl Token {
    /// A copy of the piece.
    pub fn copy(&self) -> (r: Token)
        ensures
            r@ == self@,
    {
        match self {
            Token::Code(text) => Token::Code(text.clone()),
            Token::Str(value) => Token::Str(value.clone()),
            Token::Usize(value) => Token::Usize(*value),
        }
    }
}

impl TokenStream {
    /// The empty stream.
    pub fn new() -> (r: TokenStream)
        ensures
            r@ == nothing(),
    {
        let r = TokenStream { tokens: Vec::new() };
        assert(r@ =~= nothing());
        r
    }

    /// A stream of one run of source text.
    pub fn of(text: &str) -> (r: TokenStream)
        ensures
            r@ == code(text@),
    {
        let r = TokenStream::new().code(text);
        assert(r@ =~= code(text@));
        r
    }

    fn piece(self, token: Token) -> (r: TokenStream)
        ensures
            r@ == self@ + seq![token@],
    {
        let mut r = self;
        r.tokens.push(token);
        assert(r@ =~= self@ + seq![token@]);
        r
    }

    /// The stream with source text behind it.
    pub fn code(self, text: &str) -> (r: TokenStream)
        ensures
            r@ == self@ + code(text@),
    {
        self.piece(Token::Code(text.to_owned()))
    }

    /// The stream with a string literal behind it.
    pub fn string(self, value: &str) -> (r: TokenStream)
        ensures
            r@ == self@ + string(value@),
    {
        self.piece(Token::Str(value.to_owned()))
    }

    /// The stream with a `usize` literal behind it.
    pub fn number(self, value: usize) -> (r: TokenStream)
        ensures
            r@ == self@ + number(value),
    {
        self.piece(Token::Usize(value))
    }

    /// The stream with `true` or `false` behind it.
    pub fn flag(self, value: bool) -> (r: TokenStream)
        ensures
            r@ == self@ + flag(value),
    {
        if value {
            self.code("true")
        } else {
            self.code("false")
        }
    }

    /// The stream with `Some("...")` or `None` behind it.
    pub fn optional_string(self, value: &Option<String>) -> (r: TokenStream)
        ensures
            r@ == self@ + optional_string(*value),
    {
        match value {
            Some(s) => {
                let r = self.code("Some(").string(s.as_str()).code(")");
                assert(r@ =~= self@ + optional_string(*value));
                r
            },
            None => self.code("None"),
        }
    }

    /// The stream with another one behind it.
    pub fn stream(self, other: &TokenStream) -> (r: TokenStream)
        ensures
            r@ == self@ + other@,
    {
        let mut r = self;
        let mut i: usize = 0;
        assert(r@ =~= self@ + other@.take(0));
        while i < other.tokens.len()
            invariant
                i <= other.tokens.len(),
                r@ == self@ + other@.take(i as int),
            decreases other.tokens.len() - i,
        {
            r = r.piece(other.tokens[i].copy());
            i += 1;
            assert(r@ =~= self@ + other@.take(i as int));
        }
        assert(other@.take(i as int) =~= other@);
        r
    }

    /// The stream with another one behind it, where there is one.
    pub fn optional_stream(self, other: &Option<TokenStream>) -> (r: TokenStream)
        ensures
            r@ == self@ + (match other {
                Some(s) => s@,
                None => nothing(),
            }),
    {
        match other {
            Some(s) => self.stream(s),
            None => {
                assert(self@ + nothing() =~= self@);
                self
            },
        }
    }

    /// Moves another stream behind this one.
    pub fn append(&mut self, other: TokenStream)
        ensures
            final(self)@ == old(self)@ + other@,
    {
        let ghost before = self@;
        let mut tail = other.tokens;
        self.tokens.append(&mut tail);
        assert(self@ =~= before + other@);
    }

    /// A copy of the stream.
    pub fn copy(&self) -> (r: TokenStream)
        ensures
            r@ == self@,
    {
        let r = TokenStream::new().stream(self);
        assert(nothing() + self@ =~= self@);
        r
    }
}

} // verus!
