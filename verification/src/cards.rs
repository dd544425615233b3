//! Card labels: every card is the text `"<rank> of <suit>"`, with one rank out
//! of thirteen and one suit out of four.  This module defines the mathematical
//! model of those labels, the canonical order of the full deck, and the
//! executable builders that realize them.

use vstd::prelude::*;
use vstd::string::StringExecFns;

verus! {

/// The number of suits.
pub const SUIT_COUNT: usize = 4;

/// The number of ranks in each suit.
pub const RANK_COUNT: usize = 13;

/// The number of cards in a full deck.
pub const DECK_SIZE: usize = 52;

/// The name of suit `s`, in the fixed enumeration order
/// Hearts, Diamonds, Clubs, Spades.
pub open spec fn suit_name(s: int) -> Seq<char> {
    if s == 0 {
        "Hearts"@
    } else if s == 1 {
        "Diamonds"@
    } else if s == 2 {
        "Clubs"@
    } else {
        "Spades"@
    }
}

/// The name of rank `r`, in the fixed enumeration order 2, 3, ..., 10,
/// Jack, Queen, King, Ace.
pub open spec fn rank_name(r: int) -> Seq<char> {
    if r == 0 {
        "2"@
    } else if r == 1 {
        "3"@
    } else if r == 2 {
        "4"@
    } else if r == 3 {
        "5"@
    } else if r == 4 {
        "6"@
    } else if r == 5 {
        "7"@
    } else if r == 6 {
        "8"@
    } else if r == 7 {
        "9"@
    } else if r == 8 {
        "10"@
    } else if r == 9 {
        "Jack"@
    } else if r == 10 {
        "Queen"@
    } else if r == 11 {
        "King"@
    } else {
        "Ace"@
    }
}

/// The label of the card with suit `s` and rank `r`: `"<rank> of <suit>"`.
pub open spec fn card_label(s: int, r: int) -> Seq<char> {
    rank_name(r) + " of "@ + suit_name(s)
}

/// The canonical order of a fresh deck: suits in the outer loop, ranks in the
/// inner loop, so all thirteen Hearts come first in rank order, then the
/// Diamonds, the Clubs, and finally the Spades.
pub open spec fn canonical_deck() -> Seq<Seq<char>> {
    Seq::new(DECK_SIZE as nat, |i: int| card_label(i / RANK_COUNT as int, i % RANK_COUNT as int))
}

/// The labels held by a sequence of card strings.
pub open spec fn labels_of(cards: Seq<String>) -> Seq<Seq<char>> {
    cards.map_values(|card: String| card@)
}

/// No two ranks share a name: the thirteen rank names even differ pairwise in
/// their first character.
pub proof fn lemma_rank_names_distinct()
    ensures
        forall|r1: int, r2: int|
            0 <= r1 < RANK_COUNT && 0 <= r2 < RANK_COUNT && r1 != r2 ==> rank_name(r1)
                != rank_name(r2),
{
    reveal_strlit("2");
    reveal_strlit("3");
    reveal_strlit("4");
    reveal_strlit("5");
    reveal_strlit("6");
    reveal_strlit("7");
    reveal_strlit("8");
    reveal_strlit("9");
    reveal_strlit("10");
    reveal_strlit("Jack");
    reveal_strlit("Queen");
    reveal_strlit("King");
    reveal_strlit("Ace");
    assert forall|r1: int, r2: int|
        0 <= r1 < RANK_COUNT && 0 <= r2 < RANK_COUNT && r1 != r2 implies rank_name(r1)
        != rank_name(r2) by {
        let a = rank_name(r1);
        let b = rank_name(r2);
        assert(a[0] != b[0]);
    }
}

/// No two suits share a name.
pub proof fn lemma_suit_names_distinct()
    ensures
        forall|s1: int, s2: int|
            0 <= s1 < SUIT_COUNT && 0 <= s2 < SUIT_COUNT && s1 != s2 ==> suit_name(s1)
                != suit_name(s2),
{
    reveal_strlit("Hearts");
    reveal_strlit("Diamonds");
    reveal_strlit("Clubs");
    reveal_strlit("Spades");
    assert forall|s1: int, s2: int|
        0 <= s1 < SUIT_COUNT && 0 <= s2 < SUIT_COUNT && s1 != s2 implies suit_name(s1)
        != suit_name(s2) by {
        let a = suit_name(s1);
        let b = suit_name(s2);
        assert(a[0] != b[0]);
    }
}

/// No rank name contains a space, so the first space of a card label sits
/// right after the rank part.
proof fn lemma_rank_names_no_space()
    ensures
        forall|r: int, k: int|
            0 <= r < RANK_COUNT && 0 <= k < rank_name(r).len() ==> #[trigger] rank_name(r)[k]
                != ' ',
{
    reveal_strlit("2");
    reveal_strlit("3");
    reveal_strlit("4");
    reveal_strlit("5");
    reveal_strlit("6");
    reveal_strlit("7");
    reveal_strlit("8");
    reveal_strlit("9");
    reveal_strlit("10");
    reveal_strlit("Jack");
    reveal_strlit("Queen");
    reveal_strlit("King");
    reveal_strlit("Ace");
}

/// Distinct (suit, rank) pairs yield distinct card labels.
pub proof fn lemma_card_label_injective(s1: int, r1: int, s2: int, r2: int)
    requires
        0 <= s1 < SUIT_COUNT,
        0 <= r1 < RANK_COUNT,
        0 <= s2 < SUIT_COUNT,
        0 <= r2 < RANK_COUNT,
        card_label(s1, r1) == card_label(s2, r2),
    ensures
        s1 == s2,
        r1 == r2,
{
    reveal_strlit(" of ");
    lemma_rank_names_no_space();
    let a = rank_name(r1);
    let b = rank_name(r2);
    let m = " of "@;
    let l1 = card_label(s1, r1);
    let l2 = card_label(s2, r2);
    assert(m.len() == 4);
    assert(m[0] == ' ');
    if a.len() < b.len() {
        assert(l1[a.len() as int] == m[0]);
        assert(l2[a.len() as int] == b[a.len() as int]);
        assert(false);
    }
    if b.len() < a.len() {
        assert(l2[b.len() as int] == m[0]);
        assert(l1[b.len() as int] == a[b.len() as int]);
        assert(false);
    }
    assert(a =~= b) by {
        assert forall|k: int| 0 <= k < a.len() implies a[k] == b[k] by {
            assert(l1[k] == a[k]);
            assert(l2[k] == b[k]);
        }
    }
    assert(r1 == r2) by {
        lemma_rank_names_distinct();
    }
    let u = suit_name(s1);
    let v = suit_name(s2);
    assert(l1 == (a + m) + u);
    assert(l2 == (b + m) + v);
    assert(l1.len() == a.len() + 4 + u.len());
    assert(l2.len() == b.len() + 4 + v.len());
    assert(u.len() == v.len());
    assert(u =~= v) by {
        assert forall|k: int| 0 <= k < u.len() implies u[k] == v[k] by {
            assert(l1[a.len() + 4 + k] == u[k]);
            assert(l2[a.len() + 4 + k] == v[k]);
        }
    }
    assert(s1 == s2) by {
        lemma_suit_names_distinct();
    }
}

/// A fresh deck is the full cross product of ranks and suits: it holds 52
/// cards, the card with suit `s` and rank `r` sits at position `13 * s + r`,
/// and no two positions hold the same card.
pub proof fn lemma_canonical_deck_full_cross_product()
    ensures
        canonical_deck().len() == DECK_SIZE,
        forall|s: int, r: int|
            0 <= s < SUIT_COUNT && 0 <= r < RANK_COUNT ==> canonical_deck()[RANK_COUNT * s + r]
                == #[trigger] card_label(s, r),
        forall|i: int, j: int|
            0 <= i < DECK_SIZE && 0 <= j < DECK_SIZE && i != j ==> canonical_deck()[i]
                != canonical_deck()[j],
{
    assert forall|s: int, r: int|
        0 <= s < SUIT_COUNT && 0 <= r < RANK_COUNT implies canonical_deck()[RANK_COUNT * s + r]
        == #[trigger] card_label(s, r) by {
        let i = RANK_COUNT * s + r;
        assert(i / RANK_COUNT as int == s && i % RANK_COUNT as int == r) by (nonlinear_arith)
            requires
                0 <= s < SUIT_COUNT,
                0 <= r < RANK_COUNT,
                i == RANK_COUNT * s + r,
        ;
    }
    assert forall|i: int, j: int|
        0 <= i < DECK_SIZE && 0 <= j < DECK_SIZE && i != j implies canonical_deck()[i]
        != canonical_deck()[j] by {
        let k = RANK_COUNT as int;
        if canonical_deck()[i] == canonical_deck()[j] {
            lemma_card_label_injective(i / k, i % k, j / k, j % k);
            assert(i == k * (i / k) + i % k);
            assert(j == k * (j / k) + j % k);
        }
    }
}

/// Returns the name of suit `s`.
pub fn suit_str(s: usize) -> (name: &'static str)
    requires
        s < SUIT_COUNT,
    ensures
        name@ == suit_name(s as int),
{
    if s == 0 {
        "Hearts"
    } else if s == 1 {
        "Diamonds"
    } else if s == 2 {
        "Clubs"
    } else {
        "Spades"
    }
}

/// Returns the name of rank `r`.
pub fn rank_str(r: usize) -> (name: &'static str)
    requires
        r < RANK_COUNT,
    ensures
        name@ == rank_name(r as int),
{
    if r == 0 {
        "2"
    } else if r == 1 {
        "3"
    } else if r == 2 {
        "4"
    } else if r == 3 {
        "5"
    } else if r == 4 {
        "6"
    } else if r == 5 {
        "7"
    } else if r == 6 {
        "8"
    } else if r == 7 {
        "9"
    } else if r == 8 {
        "10"
    } else if r == 9 {
        "Jack"
    } else if r == 10 {
        "Queen"
    } else if r == 11 {
        "King"
    } else {
        "Ace"
    }
}

/// Builds the label of the card with suit `s` and rank `r`.
pub fn card_string(s: usize, r: usize) -> (card: String)
    requires
        s < SUIT_COUNT,
        r < RANK_COUNT,
    ensures
        card@ == card_label(s as int, r as int),
{
    let mut card = String::from_str(rank_str(r));
    card.append(" of ");
    card.append(suit_str(s));
    card
}

} // verus!
