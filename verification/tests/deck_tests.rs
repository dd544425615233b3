use deck::Deck;
use deck::render_cards;

const SUITS: [&str; 4] = ["Hearts", "Diamonds", "Clubs", "Spades"];
const RANKS: [&str; 13] = [
    "2", "3", "4", "5", "6", "7", "8", "9", "10", "Jack", "Queen", "King", "Ace",
];

fn canonical_cards() -> Vec<String> {
    let mut cards = Vec::new();
    for suit in SUITS {
        for rank in RANKS {
            cards.push(format!("{} of {}", rank, suit));
        }
    }
    cards
}

#[test]
fn new_yields_full_cross_product() {
    let deck = Deck::new();
    let cards = deck.cards();
    assert_eq!(cards.len(), 52);
    for suit in SUITS {
        for rank in RANKS {
            let label = format!("{} of {}", rank, suit);
            assert_eq!(cards.iter().filter(|c| **c == label).count(), 1);
        }
    }
}

#[test]
fn new_is_in_canonical_order() {
    let deck = Deck::new();
    assert_eq!(deck.cards(), &canonical_cards());
    assert_eq!(deck.cards()[0], "2 of Hearts");
    assert_eq!(deck.cards()[12], "Ace of Hearts");
    assert_eq!(deck.cards()[13], "2 of Diamonds");
    assert_eq!(deck.cards()[51], "Ace of Spades");
}

#[test]
fn new_is_deterministic() {
    let first = Deck::new();
    let second = Deck::new();
    assert_eq!(first.cards(), second.cards());
}

#[test]
fn shuffle_is_a_permutation() {
    let mut deck = Deck::new();
    let before = deck.cards().clone();
    deck.shuffle();
    let after = deck.cards().clone();
    assert_eq!(after.len(), 52);
    let mut sorted_before = before;
    let mut sorted_after = after;
    sorted_before.sort();
    sorted_after.sort();
    assert_eq!(sorted_before, sorted_after);
}

#[test]
fn deal_removes_a_suffix() {
    let mut deck = Deck::new();
    let before = deck.cards().clone();
    let hand = deck.deal(5);
    assert_eq!(hand, before[47..].to_vec());
    assert_eq!(deck.cards(), &before[..47].to_vec());
    assert_eq!(deck.len(), 47);
    let mut reunited = deck.cards().clone();
    reunited.extend(hand);
    assert_eq!(reunited, before);
}

#[test]
fn deal_ten_from_fresh_deck() {
    let mut deck = Deck::new();
    let hand = deck.deal(10);
    let expected: Vec<String> = [
        "5 of Spades",
        "6 of Spades",
        "7 of Spades",
        "8 of Spades",
        "9 of Spades",
        "10 of Spades",
        "Jack of Spades",
        "Queen of Spades",
        "King of Spades",
        "Ace of Spades",
    ]
    .iter()
    .map(|c| c.to_string())
    .collect();
    assert_eq!(hand, expected);
    assert_eq!(deck.len(), 42);
    assert_eq!(deck.cards()[41], "4 of Spades");
}

#[test]
fn deal_everything_then_the_deck_is_empty() {
    let mut deck = Deck::new();
    let hand = deck.deal(52);
    assert_eq!(hand, canonical_cards());
    assert_eq!(deck.len(), 0);
    assert_eq!(deck.try_deal(1), None);
}

#[test]
fn try_deal_rejects_an_oversized_request() {
    let mut deck = Deck::new();
    assert_eq!(deck.try_deal(53), None);
    assert_eq!(deck.len(), 52);
    assert_eq!(deck.cards(), &canonical_cards());
}

#[test]
fn try_deal_accepts_a_request_that_fits() {
    let mut deck = Deck::new();
    let hand = deck.try_deal(2).unwrap();
    assert_eq!(
        hand,
        vec!["King of Spades".to_string(), "Ace of Spades".to_string()]
    );
    assert_eq!(deck.len(), 50);
}

#[test]
fn render_lists_one_quoted_card_per_line() {
    let empty: Vec<String> = Vec::new();
    assert_eq!(render_cards(&empty), "[]");
    let two = vec!["2 of Hearts".to_string(), "Ace of Spades".to_string()];
    assert_eq!(
        render_cards(&two),
        "[\n    \"2 of Hearts\",\n    \"Ace of Spades\",\n]"
    );
    let deck = Deck::new();
    assert!(deck.render().starts_with("[\n    \"2 of Hearts\",\n"));
    assert!(deck.render().ends_with("    \"Ace of Spades\",\n]"));
}
