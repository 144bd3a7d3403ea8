//! Choosing the card dealt at a chance spot when the tree is walked
//! automatically: a card fixed in advance for the street, or a random card
//! among those that can still be dealt.

use vstd::prelude::*;
use rand::Rng;
use crate::Card;
use crate::cards::PredefinedCard;
use crate::nav::{Spot, SpotCard, turn_word};
use crate::text::{chars_equal, string_chars};

verus! {

/// A random index below `n`.
///
/// Trusted: calls `rand::thread_rng().gen_range(0..n)`, which rand
/// documents as sampling the half-open range `[0, n)` and as panicking only
/// on an empty range (ruled out by `n > 0`). Nothing is claimed about which
/// index comes out.
#[verifier::external_body]
fn random_index_below(n: usize) -> (r: usize)
    requires
        n > 0,
    ensures
        r < n,
{
    let mut rng = rand::thread_rng();
    rng.gen_range(0..n)
}

/// The indices of the cards that can still be dealt, in order.
pub open spec fn live_indices(cards: Seq<SpotCard>, upto: int) -> Seq<usize>
    decreases upto,
{
    if upto <= 0 {
        seq![]
    } else {
        let prev = live_indices(cards, upto - 1);
        if !cards[upto - 1].is_dead {
            prev.push((upto - 1) as usize)
        } else {
            prev
        }
    }
}

proof fn lemma_live_indices(cards: Seq<SpotCard>, upto: int)
    requires
        0 <= upto <= cards.len(),
        upto <= usize::MAX,
    ensures
        forall|k: int|
            0 <= k < live_indices(cards, upto).len() ==> {
                let i = #[trigger] live_indices(cards, upto)[k];
                i < upto && !cards[i as int].is_dead
            },
        live_indices(cards, upto).len() == 0 <==> forall|i: int| 0 <= i < upto ==> #[trigger] cards[i].is_dead,
    decreases upto,
{
    if upto > 0 {
        lemma_live_indices(cards, upto - 1);
        let prev = live_indices(cards, upto - 1);
        assert forall|k: int| 0 <= k < live_indices(cards, upto).len() implies ({
            let i = #[trigger] live_indices(cards, upto)[k];
            i < upto && !cards[i as int].is_dead
        }) by {
            if k < prev.len() {
                assert(live_indices(cards, upto)[k] == prev[k]);
                let j = live_indices(cards, upto - 1)[k];
                assert(j < upto - 1 && !cards[j as int].is_dead);
            } else {
                assert(!cards[upto - 1].is_dead);
                assert(live_indices(cards, upto) == prev.push((upto - 1) as usize));
            }
        }
        if live_indices(cards, upto).len() == 0 {
            assert forall|i: int| 0 <= i < upto implies #[trigger] cards[i].is_dead by {
                if i < upto - 1 {
                } else {
                }
            }
        }
    }
}

/// The indices of the cards that can still be dealt.
pub fn live_card_indices(cards: &Vec<SpotCard>) -> (live: Vec<usize>)
    ensures
        live@ == live_indices(cards@, cards@.len() as int),
{
    let mut live: Vec<usize> = Vec::new();
    let mut i: usize = 0;
    while i < cards.len()
        invariant
            i <= cards@.len(),
            live@ == live_indices(cards@, i as int),
        decreases cards@.len() - i,
    {
        if !cards[i].is_dead {
            live.push(i);
        }
        i += 1;
    }
    live
}

/// A random card among those that can still be dealt, or `None` when every
/// card is dead.
pub fn pick_live_card(cards: &Vec<SpotCard>) -> (res: Option<usize>)
    ensures
        res is None <==> forall|i: int| 0 <= i < cards@.len() ==> #[trigger] cards@[i].is_dead,
        res matches Some(i) ==> i < cards@.len() && !cards@[i as int].is_dead,
{
    let n = cards.len();
    let live = live_card_indices(cards);
    proof {
        lemma_live_indices(cards@, cards@.len() as int);
    }
    if live.len() == 0 {
        return None;
    }
    let k = random_index_below(live.len());
    let i = live[k];
    Some(i)
}

/// The card for a chance spot when walking the tree: the card fixed in
/// advance for its street (slot 0 for the turn, 1 for the river) when
/// there is one; otherwise a random live card, which is then fixed for the
/// street by appending it. `None` when no card was fixed and every card is
/// dead.
pub fn choose_chance_card<V>(spot: &Spot<V>, predefined: &mut Vec<PredefinedCard>) -> (res: Option<usize>)
    ensures
        ({
            let slot: int = if spot.player@ == turn_word() { 0 } else { 1 };
            if slot < old(predefined)@.len() {
                &&& res == Some(old(predefined)@[slot].card_index)
                &&& final(predefined)@ == old(predefined)@
            } else {
                match res {
                    None => {
                        &&& forall|i: int| 0 <= i < spot.cards@.len() ==> #[trigger] spot.cards@[i].is_dead
                        &&& final(predefined)@ == old(predefined)@
                    },
                    Some(i) => {
                        &&& i < spot.cards@.len()
                        &&& !spot.cards@[i as int].is_dead
                        &&& final(predefined)@ == old(predefined)@.push(
                            PredefinedCard { card_index: i, card_value: spot.cards@[i as int].card as Card },
                        )
                    },
                }
            }
        }),
{
    let turn = vec!['t', 'u', 'r', 'n'];
    assert(turn@ =~= turn_word());
    let player = string_chars(&spot.player);
    let slot: usize = if chars_equal(&player, &turn) { 0 } else { 1 };
    if slot < predefined.len() {
        return Some(predefined[slot].card_index);
    }
    match pick_live_card(&spot.cards) {
        None => None,
        Some(i) => {
            let card_value = spot.cards[i].card as Card;
            predefined.push(PredefinedCard { card_index: i, card_value });
            Some(i)
        },
    }
}

} // verus!
