//! Text for people to read, with places for decimal numbers in it.
//!
//! A [`Doc`] says which characters are printed and where a number stands among them, with
//! how many decimals and how wide. Only the digits of the numbers are left open.

use crate::measure::Quantity;
use vstd::prelude::*;
use vstd::string::*;

verus! {

/// A stretch of a document.
#[derive(Debug)]
pub enum Piece {
    /// Characters, as they are.
    Text(String),
    /// A number with this many decimals, with blanks in front of it up to this width.
    Number { value: Quantity, width: usize, decimals: usize },
}

/// Text with places for numbers.
#[derive(Debug)]
pub struct Doc {
    pub pieces: Vec<Piece>,
}

/// One character of a document, or the place of one number.
pub enum Token {
    Char(char),
    Number { value: Quantity, width: nat, decimals: nat },
}

/// A character as a token.
pub open spec fn token(c: char) -> Token {
    Token::Char(c)
}

/// The characters of `s` as tokens.
pub open spec fn plain(s: Seq<char>) -> Seq<Token> {
    s.map_values(|c: char| token(c))
}

/// The place of a number as a token.
pub open spec fn number(value: Quantity, width: nat, decimals: nat) -> Seq<Token> {
    seq![Token::Number { value, width, decimals }]
}

/// The tokens of one stretch.
pub open spec fn piece_tokens(p: Piece) -> Seq<Token> {
    match p {
        Piece::Text(s) => plain(s@),
        Piece::Number { value, width, decimals } => number(value, width as nat, decimals as nat),
    }
}

/// The tokens of the stretches, one behind the other.
pub open spec fn tokens(pieces: Seq<Piece>) -> Seq<Token>
    decreases pieces.len(),
{
    if pieces.len() == 0 {
        Seq::empty()
    } else {
        tokens(pieces.drop_last()) + piece_tokens(pieces.last())
    }
}

impl View for Doc {
    type V = Seq<Token>;

    open spec fn view(&self) -> Seq<Token> {
        tokens(self.pieces@)
    }
}

impl Doc {
    /// An empty document.
    pub fn new() -> (d: Doc)
        ensures
            d@ == Seq::<Token>::empty(),
    {
        Doc { pieces: Vec::new() }
    }

    /// A document that holds this text.
    pub fn of(s: &str) -> (d: Doc)
        ensures
            d@ == plain(s@),
    {
        let mut d = Doc::new();
        d.text(s);
        assert(Seq::<Token>::empty() + plain(s@) == plain(s@));
        d
    }

    fn piece(&mut self, p: Piece)
        ensures
            final(self)@ == old(self)@ + piece_tokens(p),
    {
        self.pieces.push(p);
        assert(self.pieces@.drop_last() == old(self).pieces@);
    }

    /// Puts text behind what is there.
    pub fn text(&mut self, s: &str)
        ensures
            final(self)@ == old(self)@ + plain(s@),
    {
        self.piece(Piece::Text(s.to_owned()));
    }

    /// Puts a number behind what is there.
    pub fn number(&mut self, value: Quantity, width: usize, decimals: usize)
        ensures
            final(self)@ == old(self)@ + number(value, width as nat, decimals as nat),
    {
        self.piece(Piece::Number { value, width, decimals });
    }

    /// Puts a whole document behind what is there.
    pub fn append(&mut self, other: Doc)
        ensures
            final(self)@ == old(self)@ + other@,
    {
        let ghost before = self.pieces@;
        let mut rest = other;
        let ghost theirs = rest.pieces@;
        self.pieces.append(&mut rest.pieces);
        proof {
            lemma_tokens_concat(before, theirs);
        }
    }
}

proof fn lemma_tokens_concat(a: Seq<Piece>, b: Seq<Piece>)
    ensures
        tokens(a + b) == tokens(a) + tokens(b),
    decreases b.len(),
{
    if b.len() == 0 {
        assert(a + b == a);
        assert(tokens(a) + Seq::<Token>::empty() == tokens(a));
    } else {
        lemma_tokens_concat(a, b.drop_last());
        assert((a + b).drop_last() == a + b.drop_last());
        assert((a + b).last() == b.last());
        assert(tokens(a) + tokens(b.drop_last()) + piece_tokens(b.last()) == tokens(a) + (tokens(
            b.drop_last(),
        ) + piece_tokens(b.last())));
    }
}

} // verus!
