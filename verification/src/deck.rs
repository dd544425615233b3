//! The deck itself: an ordered, mutable sequence of card labels, created full
//! and in canonical order, shuffled in place, and dealt from the end.

use vstd::prelude::*;
use vstd::seq_lib::lemma_multiset_commutative;
use vstd::string::StringExecFns;

use rand::seq::SliceRandom;

use crate::cards::DECK_SIZE;
use crate::cards::RANK_COUNT;
use crate::cards::canonical_deck;
use crate::cards::card_string;
use crate::cards::labels_of;

verus! {

/// An ordered sequence of cards.  A fresh deck holds the 52 canonical cards;
/// shuffling reorders them in place, and dealing removes a suffix.
pub struct Deck {
    cards: Vec<String>,
}

impl View for Deck {
    type V = Seq<Seq<char>>;

    closed spec fn view(&self) -> Seq<Seq<char>> {
        labels_of(self.cards@)
    }
}

impl Deck {
    /// Builds the full 52-card deck in the canonical suit-major, rank-minor
    /// order: all Hearts in rank order, then Diamonds, Clubs, Spades.
    pub fn new() -> (deck: Deck)
        ensures
            deck@ == canonical_deck(),
            deck@.len() == DECK_SIZE,
    {
        let mut cards: Vec<String> = Vec::new();
        let mut i: usize = 0;
        while i < DECK_SIZE
            invariant
                i <= DECK_SIZE,
                labels_of(cards@) =~= canonical_deck().take(i as int),
            decreases DECK_SIZE - i,
        {
            let ghost pre = cards@;
            let card = card_string(i / RANK_COUNT, i % RANK_COUNT);
            proof {
                assert(card@ == canonical_deck()[i as int]);
            }
            cards.push(card);
            proof {
                assert(labels_of(pre.push(card)) =~= labels_of(pre).push(card@));
                assert(canonical_deck().take(i + 1) =~= canonical_deck().take(i as int).push(
                    canonical_deck()[i as int],
                ));
            }
            i = i + 1;
        }
        assert(labels_of(cards@) =~= canonical_deck());
        Deck { cards }
    }

    /// Reorders the cards in place by a random permutation drawn from the
    /// thread-local generator.  Which order comes out is not specified; what is
    /// promised is that the deck afterwards holds exactly the cards it held
    /// before, as a multiset, and so keeps its length.
    pub fn shuffle(&mut self)
        ensures
            final(self)@.to_multiset() == old(self)@.to_multiset(),
            final(self)@.len() == old(self)@.len(),
    {
        shuffle_cards(&mut self.cards);
    }

    /// Removes the last `num_cards` cards from the deck and returns them as a
    /// hand, in the relative order they had in the deck.  Asking for more
    /// cards than the deck holds is a caller error, ruled out by the
    /// precondition; `try_deal` is the checked form.
    pub fn deal(&mut self, num_cards: usize) -> (hand: Vec<String>)
        requires
            num_cards <= old(self)@.len(),
        ensures
            final(self)@ == old(self)@.take(old(self)@.len() - num_cards),
            labels_of(hand@) == old(self)@.skip(old(self)@.len() - num_cards),
    {
        let at = self.cards.len() - num_cards;
        let hand = self.cards.split_off(at);
        proof {
            assert(labels_of(self.cards@) =~= labels_of(old(self).cards@).take(at as int));
            assert(labels_of(hand@) =~= labels_of(old(self).cards@).skip(at as int));
        }
        hand
    }

    /// Like `deal`, but checked: returns `None`, and leaves the deck
    /// untouched, when more cards are requested than the deck holds.
    pub fn try_deal(&mut self, num_cards: usize) -> (hand: Option<Vec<String>>)
        ensures
            num_cards <= old(self)@.len() ==> {
                &&& hand is Some
                &&& final(self)@ == old(self)@.take(old(self)@.len() - num_cards)
                &&& labels_of(hand->Some_0@) == old(self)@.skip(old(self)@.len() - num_cards)
            },
            num_cards > old(self)@.len() ==> {
                &&& hand is None
                &&& *final(self) == *old(self)
            },
    {
        if num_cards <= self.cards.len() {
            Some(self.deal(num_cards))
        } else {
            None
        }
    }

    /// The number of cards currently in the deck.
    pub fn len(&self) -> (n: usize)
        ensures
            n == self@.len(),
    {
        self.cards.len()
    }

    /// The cards currently in the deck, in order.
    pub fn cards(&self) -> (cards: &Vec<String>)
        ensures
            labels_of(cards@) == self@,
    {
        &self.cards
    }

    /// Renders the deck as a bracketed multi-line listing, one quoted card
    /// per line.
    pub fn render(&self) -> (text: String)
        ensures
            text@ == rendered(self@),
    {
        render_cards(&self.cards)
    }
}

/// One line of the rendered listing: the label, quoted, indented, and
/// followed by a comma and a line break.
pub open spec fn rendered_line(label: Seq<char>) -> Seq<char> {
    "    \""@ + label + "\",\n"@
}

/// The lines of the rendered listing, one per card, in deck order.
pub open spec fn rendered_lines(labels: Seq<Seq<char>>) -> Seq<char>
    decreases labels.len(),
{
    if labels.len() == 0 {
        Seq::empty()
    } else {
        rendered_lines(labels.drop_last()) + rendered_line(labels.last())
    }
}

/// The rendered listing of a sequence of cards: `[]` when there are none,
/// otherwise the lines between an opening and a closing bracket.
pub open spec fn rendered(labels: Seq<Seq<char>>) -> Seq<char> {
    if labels.len() == 0 {
        "[]"@
    } else {
        "[\n"@ + rendered_lines(labels) + "]"@
    }
}

/// Renders a hand or a deck of cards as a bracketed multi-line listing, one
/// quoted card per line.
pub fn render_cards(cards: &Vec<String>) -> (text: String)
    ensures
        text@ == rendered(labels_of(cards@)),
{
    if cards.len() == 0 {
        return String::from_str("[]");
    }
    let ghost all = labels_of(cards@);
    let mut text = String::from_str("[\n");
    let mut i: usize = 0;
    while i < cards.len()
        invariant
            i <= cards.len(),
            all == labels_of(cards@),
            text@ == "[\n"@ + rendered_lines(all.take(i as int)),
        decreases cards.len() - i,
    {
        text.append("    \"");
        text.append(cards[i].as_str());
        text.append("\",\n");
        proof {
            assert(all.take(i + 1).drop_last() =~= all.take(i as int));
            assert(all.take(i + 1).last() == all[i as int]);
            assert(text@ =~= "[\n"@ + rendered_lines(all.take(i + 1)));
        }
        i = i + 1;
    }
    proof {
        assert(all.take(cards@.len() as int) =~= all);
    }
    text.append("]");
    text
}

/// Construction is deterministic: any two decks that `new` may return hold
/// the same cards in the same order, since each equals the canonical deck.
pub proof fn lemma_new_deterministic(deck1: Seq<Seq<char>>, deck2: Seq<Seq<char>>)
    requires
        deck1 == canonical_deck(),
        deck2 == canonical_deck(),
    ensures
        deck1 == deck2,
{
}

/// Dealing partitions the deck: the cards left behind and the cards handed
/// out, taken together as multisets, are exactly the cards of the deck before
/// the deal.
pub proof fn lemma_deal_partitions_deck(deck: Seq<Seq<char>>, num_cards: int)
    requires
        0 <= num_cards <= deck.len(),
    ensures
        deck.take(deck.len() - num_cards).to_multiset().add(
            deck.skip(deck.len() - num_cards).to_multiset(),
        ) == deck.to_multiset(),
{
    let at = deck.len() - num_cards;
    assert(deck.take(at) + deck.skip(at) =~= deck);
    lemma_multiset_commutative(deck.take(at), deck.skip(at));
}

/// Relies on `rand::seq::SliceRandom::shuffle`, driven by the thread-local
/// generator `rand::rng()`: it permutes the slice in place by swapping
/// elements, so it neither adds, removes, nor replaces any element.  The order
/// that comes out is random, so nothing is claimed of it.
#[verifier::external_body]
fn shuffle_cards(cards: &mut Vec<String>)
    ensures
        labels_of(final(cards)@).to_multiset() == labels_of(old(cards)@).to_multiset(),
        final(cards)@.len() == old(cards)@.len(),
{
    let mut rng = rand::rng();
    cards.shuffle(&mut rng);
}

} // verus!
