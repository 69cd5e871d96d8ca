//! The order in which the cards stand.

use vstd::prelude::*;

use crate::cards::{Card, CardTitle};
use crate::text;
use crate::text::TextOrder;

verus! {

/// What the order of cards goes by: provider first, then account, neither case
/// deciding the order. The spelling itself breaks a tie, so that two accounts
/// differing only in case keep a stable order.
pub open spec fn sort_key(title: CardTitle) -> Seq<Seq<char>> {
    seq![
        text::lower_case(title.provider@),
        text::lower_case(title.account@),
        title.provider@,
        title.account@,
    ]
}

/// The keys first differ at that place, where the first has the earlier text.
pub open spec fn decided_at(first: Seq<Seq<char>>, second: Seq<Seq<char>>, place: int) -> bool {
    &&& 0 <= place < first.len()
    &&& place < second.len()
    &&& first.take(place) == second.take(place)
    &&& text::comes_before(first[place], second[place])
}

/// The first key comes before the second.
pub open spec fn key_before(first: Seq<Seq<char>>, second: Seq<Seq<char>>) -> bool {
    exists|place: int| decided_at(first, second, place)
}

/// The card at one place goes before the card at another: by their keys, and by
/// their places where the keys are the same.
pub open spec fn goes_before(cards: Seq<Card>, left: int, right: int) -> bool {
    let first = sort_key(cards[left].title);
    let second = sort_key(cards[right].title);
    key_before(first, second) || (first == second && left < right)
}

/// The cards in that order: each of them once, and each before those it goes
/// before.
pub open spec fn in_order(cards: Seq<Card>, order: Seq<int>, result: Seq<Card>) -> bool {
    &&& order.len() == cards.len()
    &&& result.len() == cards.len()
    &&& forall|i: int|
        0 <= i < order.len() ==> 0 <= #[trigger] order[i] < cards.len() && result[i]
            == cards[order[i]]
    &&& forall|i: int, j: int|
        0 <= i < j < order.len() ==> goes_before(cards, #[trigger] order[i], #[trigger] order[j])
}

/// The cards are sorted: there is an order in which each of them stands once.
pub open spec fn sorted(cards: Seq<Card>, result: Seq<Card>) -> bool {
    exists|order: Seq<int>| #[trigger] in_order(cards, order, result)
}

proof fn keys_are_decided(first: Seq<Seq<char>>, second: Seq<Seq<char>>, place: int)
    requires
        first.len() == second.len(),
        0 <= place <= first.len(),
        first.take(place) == second.take(place),
    ensures
        first == second || key_before(first, second) || key_before(second, first),
    decreases first.len() - place,
{
    if place == first.len() {
        assert(first.take(place) == first);
        assert(second.take(place) == second);
    } else {
        text::order_is_total(first[place], second[place]);
        if text::comes_before(first[place], second[place]) {
            assert(decided_at(first, second, place));
        } else if text::comes_before(second[place], first[place]) {
            assert(decided_at(second, first, place));
        } else {
            assert(first.take(place + 1) == first.take(place).push(first[place]));
            assert(second.take(place + 1) == second.take(place).push(second[place]));
            keys_are_decided(first, second, place + 1);
        }
    }
}

proof fn keys_are_transitive(
    first: Seq<Seq<char>>,
    second: Seq<Seq<char>>,
    third: Seq<Seq<char>>,
)
    requires
        key_before(first, second),
        key_before(second, third),
    ensures
        key_before(first, third),
{
    let left = choose|place: int| decided_at(first, second, place);
    let right = choose|place: int| decided_at(second, third, place);
    let place = if left < right {
        left
    } else {
        right
    };
    assert(first.take(place) == second.take(place)) by {
        assert(first.take(left).take(place) == first.take(place));
        assert(second.take(left).take(place) == second.take(place));
    }
    assert(second.take(place) == third.take(place)) by {
        assert(second.take(right).take(place) == second.take(place));
        assert(third.take(right).take(place) == third.take(place));
    }
    if left < right {
        assert(second.take(right)[left] == third.take(right)[left]);
    } else if right < left {
        assert(first.take(left)[right] == second.take(left)[right]);
    } else {
        text::order_is_transitive(first[place], second[place], third[place]);
    }
    assert(decided_at(first, third, place));
}

proof fn keys_are_strict(first: Seq<Seq<char>>, second: Seq<Seq<char>>)
    requires
        key_before(first, second),
    ensures
        first != second,
        !key_before(second, first),
{
    let left = choose|place: int| decided_at(first, second, place);
    text::order_is_strict(first[left], second[left]);
    if key_before(second, first) {
        keys_are_transitive(first, second, first);
        let back = choose|place: int| decided_at(first, first, place);
        text::order_is_strict(first[back], first[back]);
    }
}

fn title_before(left: &CardTitle, right: &CardTitle) -> (result: bool)
    ensures
        result == key_before(sort_key(*left), sort_key(*right)),
{
    let ghost first = sort_key(*left);
    let ghost second = sort_key(*right);
    assert(first.take(0) =~= second.take(0));
    let left_provider = text::to_lower_case(left.provider.as_str());
    let right_provider = text::to_lower_case(right.provider.as_str());
    match text::order(left_provider.as_str(), right_provider.as_str()) {
        TextOrder::Before => {
            assert(decided_at(first, second, 0));
            return true;
        },
        TextOrder::After => {
            assert(decided_at(second, first, 0));
            proof {
                keys_are_strict(second, first);
            }
            return false;
        },
        TextOrder::Same => {},
    }
    assert(first.take(1) =~= second.take(1));
    let left_account = text::to_lower_case(left.account.as_str());
    let right_account = text::to_lower_case(right.account.as_str());
    match text::order(left_account.as_str(), right_account.as_str()) {
        TextOrder::Before => {
            assert(decided_at(first, second, 1));
            return true;
        },
        TextOrder::After => {
            assert(decided_at(second, first, 1));
            proof {
                keys_are_strict(second, first);
            }
            return false;
        },
        TextOrder::Same => {},
    }
    assert(first.take(2) =~= second.take(2));
    match text::order(left.provider.as_str(), right.provider.as_str()) {
        TextOrder::Before => {
            assert(decided_at(first, second, 2));
            return true;
        },
        TextOrder::After => {
            assert(decided_at(second, first, 2));
            proof {
                keys_are_strict(second, first);
            }
            return false;
        },
        TextOrder::Same => {},
    }
    assert(first.take(3) =~= second.take(3));
    match text::order(left.account.as_str(), right.account.as_str()) {
        TextOrder::Before => {
            assert(decided_at(first, second, 3));
            true
        },
        TextOrder::After => {
            assert(decided_at(second, first, 3));
            proof {
                keys_are_strict(second, first);
            }
            false
        },
        TextOrder::Same => {
            assert(first =~= second);
            proof {
                if key_before(first, second) {
                    keys_are_strict(first, second);
                }
            }
            false
        },
    }
}

/// The order of the cards behind a place, with the card at that place put where
/// it goes.
proof fn insertion_keeps_the_order(
    cards: Seq<Card>,
    order: Seq<int>,
    place: int,
    index: int,
)
    requires
        0 <= index < cards.len(),
        0 <= place <= order.len(),
        forall|i: int| 0 <= i < order.len() ==> index < #[trigger] order[i] < cards.len(),
        forall|i: int, j: int|
            0 <= i < j < order.len() ==> goes_before(
                cards,
                #[trigger] order[i],
                #[trigger] order[j],
            ),
        forall|i: int|
            0 <= i < place ==> key_before(
                sort_key(cards[#[trigger] order[i]].title),
                sort_key(cards[index].title),
            ),
        place < order.len() ==> !key_before(
            sort_key(cards[order[place]].title),
            sort_key(cards[index].title),
        ),
    ensures
        ({
            let after = order.insert(place, index);
            forall|i: int, j: int|
                0 <= i < j < after.len() ==> goes_before(
                    cards,
                    #[trigger] after[i],
                    #[trigger] after[j],
                )
        }),
{
    let after = order.insert(place, index);
    let key = sort_key(cards[index].title);
    assert forall|i: int, j: int| 0 <= i < j < after.len() implies goes_before(
        cards,
        #[trigger] after[i],
        #[trigger] after[j],
    ) by {
        if i < place && j < place {
            assert(after[i] == order[i] && after[j] == order[j]);
        } else if i < place && j == place {
            assert(after[i] == order[i] && after[j] == index);
        } else if i < place {
            assert(after[i] == order[i] && after[j] == order[j - 1]);
        } else if i > place {
            assert(after[i] == order[i - 1] && after[j] == order[j - 1]);
        } else {
            assert(after[i] == index && after[j] == order[j - 1]);
            let at = sort_key(cards[order[place]].title);
            let last = sort_key(cards[order[j - 1]].title);
            assert(key.take(0) =~= at.take(0));
            keys_are_decided(key, at, 0);
            if place < j - 1 {
                assert(goes_before(cards, order[place], order[j - 1]));
                if key_before(key, at) && key_before(at, last) {
                    keys_are_transitive(key, at, last);
                }
            }
        }
    }
}

/// The cards where each sat last time: the daemon hands the snapshots over in
/// its own order, which changes as accounts are added.
pub fn sort_cards(cards: Vec<Card>) -> (result: Vec<Card>)
    ensures
        sorted(cards@, result@),
{
    let ghost given = cards@;
    let ghost mut order: Seq<int> = Seq::empty();
    let mut left = cards;
    let mut result: Vec<Card> = Vec::new();
    while left.len() > 0
        invariant
            left@ == given.take(left@.len() as int),
            left@.len() + result@.len() == given.len(),
            order.len() == result@.len(),
            forall|i: int|
                0 <= i < order.len() ==> left@.len() <= #[trigger] order[i] < given.len()
                    && result@[i] == given[order[i]],
            forall|i: int, j: int|
                0 <= i < j < order.len() ==> goes_before(
                    given,
                    #[trigger] order[i],
                    #[trigger] order[j],
                ),
        decreases left@.len(),
    {
        let ghost index = left@.len() - 1;
        if let Some(card) = left.pop() {
            assert(card == given[index]);
            let mut place: usize = 0;
            while place < result.len() && title_before(&result[place].title, &card.title)
                invariant
                    place <= result@.len(),
                    order.len() == result@.len(),
                    forall|i: int|
                        0 <= i < order.len() ==> index < #[trigger] order[i] < given.len()
                            && result@[i] == given[order[i]],
                    0 <= index < given.len(),
                    card == given[index],
                    forall|i: int|
                        0 <= i < place ==> key_before(
                            sort_key(given[#[trigger] order[i]].title),
                            sort_key(given[index].title),
                        ),
                decreases result@.len() - place,
            {
                assert(result@[place as int] == given[order[place as int]]);
                place = place + 1;
            }
            proof {
                if place < result@.len() {
                    assert(result@[place as int] == given[order[place as int]]);
                }
                insertion_keeps_the_order(given, order, place as int, index);
                order = order.insert(place as int, index);
            }
            result.insert(place, card);
            assert(left@ == given.take(left@.len() as int));
        }
    }
    assert(in_order(given, order, result@));
    result
}

} // verus!
