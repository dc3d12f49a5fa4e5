use cards::Card;
use cards::CardSuit;
use cards::CardValue;
use cards::ParseError;

#[test]
fn test_ord() {
    let ace_s = Card::new(CardValue::VA, CardSuit::Spades);
    let two_s = Card::new(CardValue::V2, CardSuit::Spades);
    assert!(ace_s < two_s);
    assert_eq!(ace_s, ace_s);
    assert_eq!(two_s, two_s);
}

#[test]
fn test_parse_suit() {
    assert_eq!((CardSuit::Spades, "3"), Card::read_suit("S3").unwrap());
    assert_eq!((CardSuit::Hearts, "4"), Card::read_suit("H4").unwrap());
    assert_eq!((CardSuit::Diamonds, "5"), Card::read_suit("D5").unwrap());
    assert_eq!((CardSuit::Clubs, "6"), Card::read_suit("C6").unwrap());
    assert!(Card::read_suit("X").is_err());
    assert!(Card::read_suit("").is_err());
}

#[test]
fn test_parse_value() {
    assert_eq!((CardValue::VA, "X"), Card::read_value("AX").unwrap());
    assert_eq!((CardValue::V2, "X"), Card::read_value("2X").unwrap());
    assert_eq!((CardValue::V3, "X"), Card::read_value("3X").unwrap());
    assert_eq!((CardValue::V4, "X"), Card::read_value("4X").unwrap());
    assert_eq!((CardValue::V5, "X"), Card::read_value("5X").unwrap());
    assert_eq!((CardValue::V6, "X"), Card::read_value("6X").unwrap());
    assert_eq!((CardValue::V7, "X"), Card::read_value("7X").unwrap());
    assert_eq!((CardValue::V8, "X"), Card::read_value("8X").unwrap());
    assert_eq!((CardValue::V9, "X"), Card::read_value("9X").unwrap());
    assert_eq!((CardValue::VT, "X"), Card::read_value("TX").unwrap());
    assert_eq!((CardValue::VJ, "X"), Card::read_value("JX").unwrap());
    assert_eq!((CardValue::VQ, "X"), Card::read_value("QX").unwrap());
    assert_eq!((CardValue::VK, "X"), Card::read_value("KX").unwrap());

    assert_eq!((CardValue::VT, "X"), Card::read_value("10X").unwrap());

    assert!(Card::read_value("XX").is_err());
    assert!(Card::read_value("11").is_err());
}

#[test]
fn test_parse() {
    assert_eq!(
        (Card::new(CardValue::VA, CardSuit::Spades), "REST"),
        Card::parse("ASREST").unwrap()
    );
    assert_eq!(
        (Card::new(CardValue::V2, CardSuit::Spades), "REST"),
        Card::parse("2SREST").unwrap()
    );
    assert_eq!(
        (Card::new(CardValue::VA, CardSuit::Hearts), "REST"),
        Card::parse("AHREST").unwrap()
    );
    assert_eq!(
        (Card::new(CardValue::V8, CardSuit::Clubs), "REST"),
        Card::parse("8CREST").unwrap()
    );

    assert_eq!(
        (Card::new(CardValue::VT, CardSuit::Spades), "REST"),
        Card::parse("10SREST").unwrap()
    );
}

#[test]
fn test_value_order_chain() {
    let ranks = [
        CardValue::VA,
        CardValue::V2,
        CardValue::V3,
        CardValue::V4,
        CardValue::V5,
        CardValue::V6,
        CardValue::V7,
        CardValue::V8,
        CardValue::V9,
        CardValue::VT,
        CardValue::VJ,
        CardValue::VQ,
        CardValue::VK,
    ];
    for i in 0..ranks.len() {
        for j in 0..ranks.len() {
            assert_eq!(i < j, ranks[i] < ranks[j]);
            assert_eq!(i == j, ranks[i] == ranks[j]);
        }
    }
}

#[test]
fn test_suit_order_chain() {
    let suits = [
        CardSuit::Clubs,
        CardSuit::Hearts,
        CardSuit::Spades,
        CardSuit::Diamonds,
    ];
    for i in 0..suits.len() {
        for j in 0..suits.len() {
            assert_eq!(i < j, suits[i] < suits[j]);
            assert_eq!(i == j, suits[i] == suits[j]);
        }
    }
}

#[test]
fn test_card_order_suit_first() {
    let king_c = Card::new(CardValue::VK, CardSuit::Clubs);
    let ace_h = Card::new(CardValue::VA, CardSuit::Hearts);
    let king_s = Card::new(CardValue::VK, CardSuit::Spades);
    let ace_d = Card::new(CardValue::VA, CardSuit::Diamonds);
    assert!(king_c < ace_h);
    assert!(ace_h < king_s);
    assert!(king_s < ace_d);
}

#[test]
fn test_ten_value_tokens() {
    assert_eq!((CardValue::VT, ""), Card::read_value("T").unwrap());
    assert_eq!((CardValue::VT, ""), Card::read_value("10").unwrap());
    assert_eq!(
        (Card::new(CardValue::VT, CardSuit::Spades), "REST"),
        Card::parse("10SREST").unwrap()
    );
}

#[test]
fn test_error_kinds_and_texts() {
    match Card::read_value("XX") {
        Err(ParseError::UnrecognizedCardValue(t)) => assert_eq!(t, "XX"),
        other => panic!("expected an unrecognized value, got {:?}", other),
    }
    match Card::read_value("1S") {
        Err(ParseError::UnrecognizedCardValue(t)) => assert_eq!(t, "1S"),
        other => panic!("expected an unrecognized value, got {:?}", other),
    }
    match Card::parse("AX") {
        Err(ParseError::UnrecognizedSuit(t)) => assert_eq!(t, "X"),
        other => panic!("expected an unrecognized suit, got {:?}", other),
    }
    match Card::parse("") {
        Err(ParseError::UnrecognizedCardValue(t)) => assert_eq!(t, ""),
        other => panic!("expected an unrecognized value, got {:?}", other),
    }
}

#[test]
fn test_parse_vec() {
    let cards = Card::parse_vec("AS,2H,8C").unwrap();
    assert_eq!(
        cards,
        vec![
            Card::new(CardValue::VA, CardSuit::Spades),
            Card::new(CardValue::V2, CardSuit::Hearts),
            Card::new(CardValue::V8, CardSuit::Clubs),
        ]
    );
}

#[test]
fn test_parse_vec_trims_pieces() {
    let padded = Card::parse_vec(" AS , 2H ").unwrap();
    let bare = Card::parse_vec("AS,2H").unwrap();
    assert_eq!(padded, bare);
    assert_eq!(
        bare,
        vec![
            Card::new(CardValue::VA, CardSuit::Spades),
            Card::new(CardValue::V2, CardSuit::Hearts),
        ]
    );
}

#[test]
fn test_parse_vec_empty_input() {
    match Card::parse_vec("") {
        Err(ParseError::UnrecognizedCardValue(t)) => assert_eq!(t, ""),
        other => panic!("expected an unrecognized value, got {:?}", other),
    }
}

#[test]
fn test_parse_vec_empty_piece() {
    match Card::parse_vec("AS,,2H") {
        Err(ParseError::UnrecognizedCardValue(t)) => assert_eq!(t, ""),
        other => panic!("expected an unrecognized value, got {:?}", other),
    }
}

#[test]
fn test_parse_vec_first_error_wins() {
    match Card::parse_vec("AS,XX,YY") {
        Err(ParseError::UnrecognizedCardValue(t)) => assert_eq!(t, "XX"),
        other => panic!("expected an unrecognized value, got {:?}", other),
    }
    match Card::parse_vec("AS,2X,YY") {
        Err(ParseError::UnrecognizedSuit(t)) => assert_eq!(t, "X"),
        other => panic!("expected an unrecognized suit, got {:?}", other),
    }
}

#[test]
fn test_parse_vec_ignores_piece_remainder() {
    let cards = Card::parse_vec("AS2H,3D").unwrap();
    assert_eq!(
        cards,
        vec![
            Card::new(CardValue::VA, CardSuit::Spades),
            Card::new(CardValue::V3, CardSuit::Diamonds),
        ]
    );
}

#[test]
fn test_parse_vec_pat_custom_delimiter() {
    let cards = Card::parse_vec_pat("AS;2H", ";").unwrap();
    assert_eq!(
        cards,
        vec![
            Card::new(CardValue::VA, CardSuit::Spades),
            Card::new(CardValue::V2, CardSuit::Hearts),
        ]
    );
    let cards = Card::parse_vec_pat("10D :: KC", " :: ").unwrap();
    assert_eq!(
        cards,
        vec![
            Card::new(CardValue::VT, CardSuit::Diamonds),
            Card::new(CardValue::VK, CardSuit::Clubs),
        ]
    );
}

#[test]
fn test_parse_vec_pat_empty_delimiter() {
    match Card::parse_vec_pat("AS", "") {
        Err(ParseError::UnrecognizedCardValue(t)) => assert_eq!(t, ""),
        other => panic!("expected an unrecognized value, got {:?}", other),
    }
}

#[test]
fn test_parse_equal_texts_equal_cards() {
    let (a, _) = Card::parse("QHX").unwrap();
    let (b, _) = Card::parse("QHX").unwrap();
    assert_eq!(a, b);
}
