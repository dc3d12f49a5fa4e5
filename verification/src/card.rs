//! Card values, suits, cards, their total order, and the parsing grammar.
//!
//! The grammar, with no whitespace tolerance before, after, or inside a card
//! token:
//!
//! ```text
//! Value: 'A' | '2' | '3' | '4' | '5' | '6' | '7' | '8' | '9' | 'T' | 'J' | 'Q' | 'K' | "10"
//! Suit:  'C' | 'H' | 'S' | 'D'
//! Card:  Value Suit
//! ```

use core::cmp::Ordering;

use vstd::prelude::*;
use vstd::string::StrSliceExecFns;

use crate::errors::ParseError;
use crate::errors::SpecError;
use crate::text::find_pat;
use crate::text::lemma_find_in_range;
use crate::text::lemma_split_unfold;
use crate::text::spec_split;
use crate::text::spec_trim;
use crate::text::trim;

verus! {

/// A card rank. The thirteen variants are totally ordered by card-game rank
/// with Ace lowest: Ace < 2 < 3 < ... < 9 < Ten < Jack < Queen < King.
#[derive(Clone, Copy, Debug, PartialEq, Eq, Ord, Structural)]
pub enum CardValue {
    VA,
    V2,
    V3,
    V4,
    V5,
    V6,
    V7,
    V8,
    V9,
    VT,
    VJ,
    VQ,
    VK,
}

/// A card suit. The four variants are totally ordered by a fixed, game-meaningless
/// sequence — Clubs < Hearts < Spades < Diamonds — only so that cards compare
/// deterministically.
#[derive(Clone, Copy, Debug, PartialEq, Eq, Ord, Structural)]
pub enum CardSuit {
    Clubs,
    Hearts,
    Spades,
    Diamonds,
}

/// An immutable (suit, value) pair. Cards are totally ordered lexicographically,
/// suit first, then value within the same suit; equality is structural.
#[derive(Debug, PartialEq, Eq, Ord, Structural)]
pub struct Card {
    pub suit: CardSuit,
    pub val: CardValue,
}

/// The rank of a value in the Ace-low order: Ace is 0, King is 12.
pub open spec fn value_rank(v: CardValue) -> int {
    match v {
        CardValue::VA => 0,
        CardValue::V2 => 1,
        CardValue::V3 => 2,
        CardValue::V4 => 3,
        CardValue::V5 => 4,
        CardValue::V6 => 5,
        CardValue::V7 => 6,
        CardValue::V8 => 7,
        CardValue::V9 => 8,
        CardValue::VT => 9,
        CardValue::VJ => 10,
        CardValue::VQ => 11,
        CardValue::VK => 12,
    }
}

/// The rank of a suit in the fixed comparison order: Clubs is 0, Diamonds is 3.
pub open spec fn suit_rank(s: CardSuit) -> int {
    match s {
        CardSuit::Clubs => 0,
        CardSuit::Hearts => 1,
        CardSuit::Spades => 2,
        CardSuit::Diamonds => 3,
    }
}

/// The ordering two ranks compare to.
pub open spec fn rank_ordering(a: int, b: int) -> Ordering {
    if a < b {
        Ordering::Less
    } else if a == b {
        Ordering::Equal
    } else {
        Ordering::Greater
    }
}

impl CardValue {
    /// The numeric rank of this value, equal to [`value_rank`].
    pub fn rank(&self) -> (r: u8)
        ensures
            r == value_rank(*self),
    {
        match self {
            CardValue::VA => 0u8,
            CardValue::V2 => 1u8,
            CardValue::V3 => 2u8,
            CardValue::V4 => 3u8,
            CardValue::V5 => 4u8,
            CardValue::V6 => 5u8,
            CardValue::V7 => 6u8,
            CardValue::V8 => 7u8,
            CardValue::V9 => 8u8,
            CardValue::VT => 9u8,
            CardValue::VJ => 10u8,
            CardValue::VQ => 11u8,
            CardValue::VK => 12u8,
        }
    }
}

impl CardSuit {
    /// The numeric rank of this suit, equal to [`suit_rank`].
    pub fn rank(&self) -> (r: u8)
        ensures
            r == suit_rank(*self),
    {
        match self {
            CardSuit::Clubs => 0u8,
            CardSuit::Hearts => 1u8,
            CardSuit::Spades => 2u8,
            CardSuit::Diamonds => 3u8,
        }
    }
}

impl vstd::std_specs::cmp::PartialOrdSpecImpl for CardValue {
    open spec fn obeys_partial_cmp_spec() -> bool {
        true
    }

    open spec fn partial_cmp_spec(&self, other: &CardValue) -> Option<Ordering> {
        Some(rank_ordering(value_rank(*self), value_rank(*other)))
    }
}

impl PartialOrd for CardValue {
    fn partial_cmp(&self, other: &CardValue) -> (r: Option<Ordering>) {
        let a = self.rank();
        let b = other.rank();
        if a < b {
            Some(Ordering::Less)
        } else if a == b {
            Some(Ordering::Equal)
        } else {
            Some(Ordering::Greater)
        }
    }
}

impl vstd::std_specs::cmp::PartialOrdSpecImpl for CardSuit {
    open spec fn obeys_partial_cmp_spec() -> bool {
        true
    }

    open spec fn partial_cmp_spec(&self, other: &CardSuit) -> Option<Ordering> {
        Some(rank_ordering(suit_rank(*self), suit_rank(*other)))
    }
}

impl PartialOrd for CardSuit {
    fn partial_cmp(&self, other: &CardSuit) -> (r: Option<Ordering>) {
        let a = self.rank();
        let b = other.rank();
        if a < b {
            Some(Ordering::Less)
        } else if a == b {
            Some(Ordering::Equal)
        } else {
            Some(Ordering::Greater)
        }
    }
}

/// The ordering two cards compare to: by suit first, then by value.
pub open spec fn card_ordering(a: Card, b: Card) -> Ordering {
    if suit_rank(a.suit) == suit_rank(b.suit) {
        rank_ordering(value_rank(a.val), value_rank(b.val))
    } else {
        rank_ordering(suit_rank(a.suit), suit_rank(b.suit))
    }
}

impl vstd::std_specs::cmp::PartialOrdSpecImpl for Card {
    open spec fn obeys_partial_cmp_spec() -> bool {
        true
    }

    open spec fn partial_cmp_spec(&self, other: &Card) -> Option<Ordering> {
        Some(card_ordering(*self, *other))
    }
}

impl PartialOrd for Card {
    fn partial_cmp(&self, other: &Card) -> (r: Option<Ordering>) {
        let a = self.suit.rank();
        let b = other.suit.rank();
        if a < b {
            Some(Ordering::Less)
        } else if b < a {
            Some(Ordering::Greater)
        } else {
            self.val.partial_cmp(&other.val)
        }
    }
}

/// The value a single-character value token denotes, if it is one.
/// `'1'` is not a token by itself: Ten is written `'T'` or `"10"`.
pub open spec fn spec_value_char(c: char) -> Option<CardValue> {
    if c == 'A' {
        Some(CardValue::VA)
    } else if c == '2' {
        Some(CardValue::V2)
    } else if c == '3' {
        Some(CardValue::V3)
    } else if c == '4' {
        Some(CardValue::V4)
    } else if c == '5' {
        Some(CardValue::V5)
    } else if c == '6' {
        Some(CardValue::V6)
    } else if c == '7' {
        Some(CardValue::V7)
    } else if c == '8' {
        Some(CardValue::V8)
    } else if c == '9' {
        Some(CardValue::V9)
    } else if c == 'T' {
        Some(CardValue::VT)
    } else if c == 'J' {
        Some(CardValue::VJ)
    } else if c == 'Q' {
        Some(CardValue::VQ)
    } else if c == 'K' {
        Some(CardValue::VK)
    } else {
        None
    }
}

/// The suit a single-character suit token denotes, if it is one.
pub open spec fn spec_suit_char(c: char) -> Option<CardSuit> {
    if c == 'S' {
        Some(CardSuit::Spades)
    } else if c == 'H' {
        Some(CardSuit::Hearts)
    } else if c == 'D' {
        Some(CardSuit::Diamonds)
    } else if c == 'C' {
        Some(CardSuit::Clubs)
    } else {
        None
    }
}

/// The value token at the front of `s`: `"10"` denotes Ten, any recognized
/// single character denotes its value, and anything else — including an empty
/// text and a `'1'` not followed by `'0'` — fails with the whole of `s` as the
/// offending text.
pub open spec fn spec_read_value(s: Seq<char>) -> Result<(CardValue, Seq<char>), SpecError> {
    if s.len() >= 2 && s[0] == '1' && s[1] == '0' {
        Ok((CardValue::VT, s.subrange(2, s.len() as int)))
    } else if s.len() >= 1 && spec_value_char(s[0]) is Some {
        Ok((spec_value_char(s[0])->Some_0, s.subrange(1, s.len() as int)))
    } else {
        Err(SpecError::UnrecognizedCardValue(s))
    }
}

/// The suit token at the front of `s`: exactly one recognized character;
/// anything else — including an empty text — fails with the whole of `s` as
/// the offending text.
pub open spec fn spec_read_suit(s: Seq<char>) -> Result<(CardSuit, Seq<char>), SpecError> {
    if s.len() >= 1 && spec_suit_char(s[0]) is Some {
        Ok((spec_suit_char(s[0])->Some_0, s.subrange(1, s.len() as int)))
    } else {
        Err(SpecError::UnrecognizedSuit(s))
    }
}

/// One card token at the front of `s`: a value token immediately followed by
/// a suit token. The first failure wins and is returned unchanged.
pub open spec fn spec_parse_card(s: Seq<char>) -> Result<(Card, Seq<char>), SpecError> {
    match spec_read_value(s) {
        Ok(v) => match spec_read_suit(v.1) {
            Ok(u) => Ok((Card { suit: u.0, val: v.0 }, u.1)),
            Err(e) => Err(e),
        },
        Err(e) => Err(e),
    }
}

/// One card from each piece, in piece order, or the first failure. Each piece
/// is trimmed of surrounding whitespace and its leading card token is read;
/// text left in a piece after that token is ignored.
pub open spec fn spec_parse_list(pieces: Seq<Seq<char>>) -> Result<Seq<Card>, SpecError>
    decreases pieces.len(),
{
    if pieces.len() == 0 {
        Ok(Seq::empty())
    } else {
        match spec_parse_card(spec_trim(pieces[0])) {
            Ok(p) => match spec_parse_list(pieces.drop_first()) {
                Ok(rest) => Ok(seq![p.0] + rest),
                Err(e) => Err(e),
            },
            Err(e) => Err(e),
        }
    }
}

impl Card {
    /// Construct the card with the given value and suit.
    pub fn new(val: CardValue, suit: CardSuit) -> (c: Card)
        ensures
            c.val == val,
            c.suit == suit,
    {
        Card { suit, val }
    }

    /// Decode a single-character value token.
    fn value_of_char(c: char) -> (r: Option<CardValue>)
        ensures
            r == spec_value_char(c),
    {
        if c == 'A' {
            Some(CardValue::VA)
        } else if c == '2' {
            Some(CardValue::V2)
        } else if c == '3' {
            Some(CardValue::V3)
        } else if c == '4' {
            Some(CardValue::V4)
        } else if c == '5' {
            Some(CardValue::V5)
        } else if c == '6' {
            Some(CardValue::V6)
        } else if c == '7' {
            Some(CardValue::V7)
        } else if c == '8' {
            Some(CardValue::V8)
        } else if c == '9' {
            Some(CardValue::V9)
        } else if c == 'T' {
            Some(CardValue::VT)
        } else if c == 'J' {
            Some(CardValue::VJ)
        } else if c == 'Q' {
            Some(CardValue::VQ)
        } else if c == 'K' {
            Some(CardValue::VK)
        } else {
            None
        }
    }

    /// Decode a single-character suit token.
    fn suit_of_char(c: char) -> (r: Option<CardSuit>)
        ensures
            r == spec_suit_char(c),
    {
        if c == 'S' {
            Some(CardSuit::Spades)
        } else if c == 'H' {
            Some(CardSuit::Hearts)
        } else if c == 'D' {
            Some(CardSuit::Diamonds)
        } else if c == 'C' {
            Some(CardSuit::Clubs)
        } else {
            None
        }
    }

    /// Consume the value token at the front of `s` and return the decoded
    /// value with the unconsumed remainder, or fail with
    /// [`ParseError::UnrecognizedCardValue`] carrying the whole of `s`.
    pub fn read_value<'a>(s: &'a str) -> (r: Result<(CardValue, &'a str), ParseError>)
        ensures
            match r {
                Ok(p) => spec_read_value(s@) == Ok::<(CardValue, Seq<char>), SpecError>(
                    (p.0, p.1@),
                ),
                Err(e) => spec_read_value(s@) == Err::<(CardValue, Seq<char>), SpecError>(e@),
            },
    {
        let n = s.unicode_len();
        if n == 0 {
            return Err(ParseError::UnrecognizedCardValue(s.to_owned()));
        }
        let c = s.get_char(0);
        if c == '1' {
            if n >= 2 && s.get_char(1) == '0' {
                Ok((CardValue::VT, s.substring_char(2, n)))
            } else {
                Err(ParseError::UnrecognizedCardValue(s.to_owned()))
            }
        } else {
            match Self::value_of_char(c) {
                Some(v) => Ok((v, s.substring_char(1, n))),
                None => Err(ParseError::UnrecognizedCardValue(s.to_owned())),
            }
        }
    }

    /// Consume exactly one character as the suit token at the front of `s` and
    /// return the decoded suit with the unconsumed remainder, or fail with
    /// [`ParseError::UnrecognizedSuit`] carrying the whole of `s`.
    pub fn read_suit<'a>(s: &'a str) -> (r: Result<(CardSuit, &'a str), ParseError>)
        ensures
            match r {
                Ok(p) => spec_read_suit(s@) == Ok::<(CardSuit, Seq<char>), SpecError>(
                    (p.0, p.1@),
                ),
                Err(e) => spec_read_suit(s@) == Err::<(CardSuit, Seq<char>), SpecError>(e@),
            },
    {
        let n = s.unicode_len();
        if n == 0 {
            return Err(ParseError::UnrecognizedSuit(s.to_owned()));
        }
        match Self::suit_of_char(s.get_char(0)) {
            Some(u) => Ok((u, s.substring_char(1, n))),
            None => Err(ParseError::UnrecognizedSuit(s.to_owned())),
        }
    }

    /// Parse exactly one card token at the front of `s`: a value token
    /// immediately followed by a suit token, with no whitespace tolerance.
    /// On success the returned remainder is exactly the text after the
    /// consumed tokens; the first failure is returned unchanged.
    pub fn parse<'a>(s: &'a str) -> (r: Result<(Card, &'a str), ParseError>)
        ensures
            match r {
                Ok(p) => spec_parse_card(s@) == Ok::<(Card, Seq<char>), SpecError>((p.0, p.1@)),
                Err(e) => spec_parse_card(s@) == Err::<(Card, Seq<char>), SpecError>(e@),
            },
    {
        match Self::read_value(s) {
            Ok((val, rest)) => match Self::read_suit(rest) {
                Ok((suit, rest)) => Ok((Card::new(val, suit), rest)),
                Err(e) => Err(e),
            },
            Err(e) => Err(e),
        }
    }

    /// Parse every `pat`-separated piece of `s` as [`spec_parse_list`] says,
    /// stopping at the first failure.
    fn parse_split(s: &str, pat: &str) -> (r: Result<Vec<Card>, ParseError>)
        requires
            1 <= pat@.len(),
        ensures
            match r {
                Ok(cards) => spec_parse_list(spec_split(s@, pat@)) == Ok::<Seq<Card>, SpecError>(
                    cards@,
                ),
                Err(e) => spec_parse_list(spec_split(s@, pat@)) == Err::<Seq<Card>, SpecError>(e@),
            },
        decreases s@.len(),
    {
        proof {
            lemma_split_unfold(s@, pat@);
        }
        match find_pat(s, pat) {
            None => {
                proof {
                    assert(spec_split(s@, pat@).drop_first() =~= Seq::<Seq<char>>::empty());
                }
                let trimmed = trim(s);
                match Self::parse(trimmed) {
                    Ok(p) => {
                        let mut cards: Vec<Card> = Vec::new();
                        cards.push(p.0);
                        proof {
                            assert(cards@ =~= seq![p.0] + Seq::<Card>::empty());
                        }
                        Ok(cards)
                    },
                    Err(e) => Err(e),
                }
            },
            Some(i) => {
                let ghost pieces = spec_split(s@, pat@);
                proof {
                    lemma_find_in_range(s@, pat@, 0);
                    assert(pieces[0] == s@.subrange(0, i as int));
                    assert(pieces.drop_first() =~= spec_split(
                        s@.subrange(i + pat@.len(), s@.len() as int),
                        pat@,
                    ));
                }
                let n = s.unicode_len();
                let m = pat.unicode_len();
                let piece = s.substring_char(0, i);
                let trimmed = trim(piece);
                match Self::parse(trimmed) {
                    Ok(p) => {
                        let rest = s.substring_char(i + m, n);
                        match Self::parse_split(rest, pat) {
                            Ok(mut cards) => {
                                let ghost tail = cards@;
                                cards.insert(0, p.0);
                                proof {
                                    assert(cards@ =~= seq![p.0] + tail);
                                }
                                Ok(cards)
                            },
                            Err(e) => Err(e),
                        }
                    },
                    Err(e) => Err(e),
                }
            },
        }
    }

    /// Parse a `pat`-separated list of card tokens into the cards they denote,
    /// in input order, or fail with the first error encountered. Each piece is
    /// trimmed of surrounding whitespace before its card token is read; text
    /// left in a piece after that token is ignored, as in the fixed grammar
    /// only the pieces' leading tokens decide the outcome. As with
    /// `str::split`, an empty `pat` yields an empty first piece, so the whole
    /// parse fails with [`ParseError::UnrecognizedCardValue`] carrying the
    /// empty text.
    pub fn parse_vec_pat(s: &str, pat: &str) -> (r: Result<Vec<Card>, ParseError>)
        ensures
            pat@.len() == 0 ==> (r matches Err(e) && e@ == SpecError::UnrecognizedCardValue(
                Seq::empty(),
            )),
            1 <= pat@.len() ==> match r {
                Ok(cards) => spec_parse_list(spec_split(s@, pat@)) == Ok::<Seq<Card>, SpecError>(
                    cards@,
                ),
                Err(e) => spec_parse_list(spec_split(s@, pat@)) == Err::<Seq<Card>, SpecError>(e@),
            },
    {
        if pat.unicode_len() == 0 {
            Err(ParseError::UnrecognizedCardValue(String::new()))
        } else {
            Self::parse_split(s, pat)
        }
    }

    /// Parse a comma-separated list of card tokens: [`Card::parse_vec_pat`]
    /// with `","` as the delimiter.
    pub fn parse_vec(s: &str) -> (r: Result<Vec<Card>, ParseError>)
        ensures
            match r {
                Ok(cards) => spec_parse_list(spec_split(s@, seq![','])) == Ok::<
                    Seq<Card>,
                    SpecError,
                >(cards@),
                Err(e) => spec_parse_list(spec_split(s@, seq![','])) == Err::<
                    Seq<Card>,
                    SpecError,
                >(e@),
            },
    {
        proof {
            reveal_strlit(",");
            assert(","@ =~= seq![',']);
        }
        Self::parse_vec_pat(s, ",")
    }
}

} // verus!
