//! The laws of the library, stated over the spec functions that the public
//! contracts use and proved once for all inputs.

use core::cmp::Ordering;

use vstd::prelude::*;
use vstd::std_specs::cmp::PartialOrdSpec;

use crate::card::Card;
use crate::card::CardSuit;
use crate::card::CardValue;
use crate::card::rank_ordering;
use crate::card::spec_parse_card;
use crate::card::spec_parse_list;
use crate::card::spec_read_suit;
use crate::card::spec_read_value;
use crate::card::spec_suit_char;
use crate::card::spec_value_char;
use crate::card::value_rank;
use crate::errors::SpecError;
use crate::text::char_whitespace;
use crate::text::spec_trim;
use crate::text::spec_trim_end;
use crate::text::spec_trim_start;

verus! {

/// Ordering: two cards of the same suit compare by their values alone, so the
/// one with the lower value — Ace lowest, King highest — compares smaller.
pub proof fn lemma_same_suit_orders_by_value(a: Card, b: Card)
    requires
        a.suit == b.suit,
    ensures
        a.partial_cmp_spec(&b) == Some(rank_ordering(value_rank(a.val), value_rank(b.val))),
        a.partial_cmp_spec(&b) == Some(Ordering::Less) <==> value_rank(a.val) < value_rank(
            b.val,
        ),
{
}

/// Equality is reflexive: every card equals itself, and comparing a card with
/// itself yields `Equal`.
pub proof fn lemma_card_equals_itself(c: Card)
    ensures
        c == c,
        c.partial_cmp_spec(&c) == Some(Ordering::Equal),
{
}

/// Parsing is a pure function of the text: the same text parses the same way
/// twice, so two parses of equal texts yield equal cards.
pub proof fn lemma_parse_deterministic(s: Seq<char>, t: Seq<char>)
    requires
        s == t,
    ensures
        spec_parse_card(s) == spec_parse_card(t),
{
}

/// Parsing `"AS"` followed by any trailing text yields the Ace of Spades and
/// exactly that trailing text as the remainder.
pub proof fn lemma_prefix_remainder(t: Seq<char>)
    ensures
        spec_parse_card(seq!['A', 'S'] + t) == Ok::<(Card, Seq<char>), SpecError>(
            (Card { suit: CardSuit::Spades, val: CardValue::VA }, t),
        ),
{
    let s = seq!['A', 'S'] + t;
    assert(s[0] == 'A');
    assert(s.subrange(1, s.len() as int) =~= seq!['S'] + t);
    let r = seq!['S'] + t;
    assert(r[0] == 'S');
    assert(r.subrange(1, r.len() as int) =~= t);
}

/// Ten aliasing: the tokens `"T"` and `"10"`, each followed by any trailing
/// text, both read as the Ten value with that trailing text left over.
pub proof fn lemma_ten_aliasing(t: Seq<char>)
    ensures
        spec_read_value(seq!['T'] + t) == Ok::<(CardValue, Seq<char>), SpecError>(
            (CardValue::VT, t),
        ),
        spec_read_value(seq!['1', '0'] + t) == Ok::<(CardValue, Seq<char>), SpecError>(
            (CardValue::VT, t),
        ),
{
    let s = seq!['T'] + t;
    assert(s[0] == 'T');
    assert(s.subrange(1, s.len() as int) =~= t);
    let r = seq!['1', '0'] + t;
    assert(r[0] == '1');
    assert(r[1] == '0');
    assert(r.subrange(2, r.len() as int) =~= t);
}

/// Every single-character value token, followed by any trailing text, reads as
/// the value it denotes with that trailing text left over.
pub proof fn lemma_single_char_value_token(c: char, v: CardValue, t: Seq<char>)
    requires
        spec_value_char(c) == Some(v),
    ensures
        spec_read_value(seq![c] + t) == Ok::<(CardValue, Seq<char>), SpecError>((v, t)),
{
    let s = seq![c] + t;
    assert(s[0] == c);
    assert(s.subrange(1, s.len() as int) =~= t);
}

/// Every single-character suit token, followed by any trailing text, reads as
/// the suit it denotes with that trailing text left over.
pub proof fn lemma_single_char_suit_token(c: char, u: CardSuit, t: Seq<char>)
    requires
        spec_suit_char(c) == Some(u),
    ensures
        spec_read_suit(seq![c] + t) == Ok::<(CardSuit, Seq<char>), SpecError>((u, t)),
{
    let s = seq![c] + t;
    assert(s[0] == c);
    assert(s.subrange(1, s.len() as int) =~= t);
}

/// A successful list parse yields exactly one card per piece, in piece order:
/// the i-th card is the one read from the i-th trimmed piece.
pub proof fn lemma_list_preserves_order(pieces: Seq<Seq<char>>, cards: Seq<Card>)
    requires
        spec_parse_list(pieces) == Ok::<Seq<Card>, SpecError>(cards),
    ensures
        cards.len() == pieces.len(),
        forall|i: int|
            0 <= i < pieces.len() ==> (#[trigger] spec_parse_card(spec_trim(pieces[i]))) is Ok,
        forall|i: int|
            0 <= i < pieces.len() ==> cards[i] == (#[trigger] spec_parse_card(
                spec_trim(pieces[i]),
            ))->Ok_0.0,
    decreases pieces.len(),
{
    if pieces.len() > 0 {
        let tail = pieces.drop_first();
        let tail_cards = spec_parse_list(tail)->Ok_0;
        lemma_list_preserves_order(tail, tail_cards);
        assert forall|i: int|
            0 <= i < pieces.len() implies (#[trigger] spec_parse_card(
            spec_trim(pieces[i]),
        )) is Ok && cards[i] == spec_parse_card(spec_trim(pieces[i]))->Ok_0.0 by {
            if i > 0 {
                assert(tail[i - 1] == pieces[i]);
                assert(cards[i] == tail_cards[i - 1]);
            }
        }
    }
}

/// All-whitespace text trims from the start to nothing.
proof fn lemma_trim_start_all_ws(s: Seq<char>)
    requires
        forall|i: int| 0 <= i < s.len() ==> char_whitespace(s[i]),
    ensures
        spec_trim_start(s) == Seq::<char>::empty(),
    decreases s.len(),
{
    if s.len() == 0 {
        assert(s =~= Seq::<char>::empty());
    } else {
        assert(char_whitespace(s[0]));
        let s1 = s.subrange(1, s.len() as int);
        assert forall|i: int| 0 <= i < s1.len() implies char_whitespace(s1[i]) by {
            assert(s1[i] == s[i + 1]);
        }
        lemma_trim_start_all_ws(s1);
    }
}

/// A whitespace prefix does not change what trimming from the start leaves.
proof fn lemma_trim_start_skips_ws(a: Seq<char>, x: Seq<char>)
    requires
        forall|i: int| 0 <= i < a.len() ==> char_whitespace(a[i]),
    ensures
        spec_trim_start(a + x) == spec_trim_start(x),
    decreases a.len(),
{
    if a.len() == 0 {
        assert(a + x =~= x);
    } else {
        let s = a + x;
        assert(s[0] == a[0]);
        assert(char_whitespace(s[0]));
        let a1 = a.subrange(1, a.len() as int);
        assert(s.subrange(1, s.len() as int) =~= a1 + x);
        assert forall|i: int| 0 <= i < a1.len() implies char_whitespace(a1[i]) by {
            assert(a1[i] == a[i + 1]);
        }
        lemma_trim_start_skips_ws(a1, x);
    }
}

/// A whitespace suffix does not change what trimming from the end leaves.
proof fn lemma_trim_end_skips_ws(x: Seq<char>, b: Seq<char>)
    requires
        forall|i: int| 0 <= i < b.len() ==> char_whitespace(b[i]),
    ensures
        spec_trim_end(x + b) == spec_trim_end(x),
    decreases b.len(),
{
    if b.len() == 0 {
        assert(x + b =~= x);
    } else {
        let s = x + b;
        assert(s[s.len() - 1] == b[b.len() - 1]);
        assert(char_whitespace(s[s.len() - 1]));
        let b1 = b.subrange(0, b.len() - 1);
        assert(s.subrange(0, s.len() - 1) =~= x + b1);
        assert forall|i: int| 0 <= i < b1.len() implies char_whitespace(b1[i]) by {
            assert(b1[i] == b[i]);
        }
        lemma_trim_end_skips_ws(x, b1);
    }
}

/// When `x` holds a non-whitespace character, trimming a whitespace-padded
/// `x + b` from the start strips nothing from `b`.
proof fn lemma_trim_start_appends(x: Seq<char>, b: Seq<char>)
    requires
        exists|i: int| 0 <= i < x.len() && !char_whitespace(x[i]),
    ensures
        spec_trim_start(x + b) == spec_trim_start(x) + b,
    decreases x.len(),
{
    let w = choose|i: int| 0 <= i < x.len() && !char_whitespace(x[i]);
    let s = x + b;
    assert(s[0] == x[0]);
    if !char_whitespace(x[0]) {
    } else {
        let x1 = x.subrange(1, x.len() as int);
        assert(x1[w - 1] == x[w]);
        assert(s.subrange(1, s.len() as int) =~= x1 + b);
        lemma_trim_start_appends(x1, b);
    }
}

/// Surrounding whitespace around a piece changes neither its trimmed form nor
/// how it parses: a piece written with extra whitespace on either side parses
/// exactly as the bare piece does.
pub proof fn lemma_whitespace_padding(p: Seq<char>, a: Seq<char>, b: Seq<char>)
    requires
        forall|i: int| 0 <= i < a.len() ==> char_whitespace(a[i]),
        forall|i: int| 0 <= i < b.len() ==> char_whitespace(b[i]),
    ensures
        spec_trim(a + p + b) == spec_trim(p),
        spec_parse_card(spec_trim(a + p + b)) == spec_parse_card(spec_trim(p)),
{
    assert(a + p + b =~= a + (p + b));
    lemma_trim_start_skips_ws(a, p + b);
    if exists|i: int| 0 <= i < p.len() && !char_whitespace(p[i]) {
        lemma_trim_start_appends(p, b);
        lemma_trim_end_skips_ws(spec_trim_start(p), b);
    } else {
        assert forall|i: int| 0 <= i < p.len() implies char_whitespace(p[i]) by {}
        lemma_trim_start_skips_ws(p, b);
        lemma_trim_start_all_ws(p);
        lemma_trim_start_all_ws(b);
    }
}

} // verus!
