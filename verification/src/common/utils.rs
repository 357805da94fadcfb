//! Small shared helpers: drawing a random index, walking a table in turn
//! order, rotating a series, and set-difference on card pools.

use vstd::prelude::*;

use rand::Rng;

use super::card::Card;

verus! {

/// Relies on `rand::Rng::gen_range` over `min..max`: a value drawn from a
/// non-empty range lies inside it.
#[verifier::external_body]
pub fn random_int_in_range(min: usize, max: usize) -> (r: usize)
    requires
        min < max,
    ensures
        min <= r < max,
{
    let mut rng = rand::thread_rng();
    rng.gen_range(min..max)
}

/// The index after `current_index`, wrapping to the front of the table.
pub fn get_next_index<T>(vector: &Vec<T>, current_index: usize) -> (r: usize)
    requires
        vector@.len() > 0,
    ensures
        r == if current_index + 1 < vector@.len() {
            current_index + 1
        } else {
            0
        },
        r < vector@.len(),
{
    if current_index < vector.len() - 1 {
        current_index + 1
    } else {
        0
    }
}

/// Compare `a` against an optional reference value: with nothing to
/// compare against the answer is yes, otherwise the comparator decides.
pub fn compare<T, F: Fn(&T, &T) -> bool>(a: &T, b: Option<&T>, comparator: F) -> (r: bool)
    requires
        b matches Some(bb) ==> call_requires(comparator, (a, bb)),
    ensures
        b is None ==> r,
        b matches Some(bb) ==> call_ensures(comparator, (a, bb), r),
{
    match b {
        Some(b) => comparator(a, b),
        None => true,
    }
}

/// Rotate a series so it starts at `index`: the tail comes first, the
/// head after it.
pub fn reorder<T: Copy>(serie: &Vec<T>, index: usize) -> (r: Vec<T>)
    requires
        index <= serie@.len(),
    ensures
        r@ == serie@.subrange(index as int, serie@.len() as int) + serie@.subrange(
            0,
            index as int,
        ),
{
    let mut r: Vec<T> = Vec::new();
    let mut i: usize = index;
    while i < serie.len()
        invariant
            index <= i <= serie@.len(),
            r@ == serie@.subrange(index as int, i as int),
        decreases serie@.len() - i,
    {
        proof {
            assert(serie@.subrange(index as int, i + 1) =~= serie@.subrange(
                index as int,
                i as int,
            ).push(serie@[i as int]));
        }
        r.push(serie[i]);
        i = i + 1;
    }
    let mut j: usize = 0;
    while j < index
        invariant
            0 <= j <= index <= serie@.len(),
            r@ == serie@.subrange(index as int, serie@.len() as int) + serie@.subrange(
                0,
                j as int,
            ),
        decreases index - j,
    {
        proof {
            assert(serie@.subrange(0, j + 1) =~= serie@.subrange(0, j as int).push(
                serie@[j as int],
            ));
        }
        r.push(serie[j]);
        j = j + 1;
    }
    r
}

/// Remove from `a` every card that also stands in `b`.
pub fn subtract(a: &mut Vec<Card>, b: &Vec<Card>)
    ensures
        final(a)@ == old(a)@.filter(|x: Card| !b@.contains(x)),
{
    let mut kept: Vec<Card> = Vec::new();
    let mut i: usize = 0;
    proof {
        reveal(Seq::filter);
    }
    while i < a.len()
        invariant
            0 <= i <= a@.len(),
            kept@ == a@.subrange(0, i as int).filter(|x: Card| !b@.contains(x)),
        decreases a@.len() - i,
    {
        proof {
            assert(a@.subrange(0, i + 1) =~= a@.subrange(0, i as int).push(a@[i as int]));
            a@.subrange(0, i as int).lemma_filter_push(
                a@[i as int],
                |x: Card| !b@.contains(x),
            );
        }
        if !contains_card(b, &a[i]) {
            kept.push(a[i]);
        }
        i = i + 1;
    }
    proof {
        assert(a@.subrange(0, a@.len() as int) =~= a@);
    }
    *a = kept;
}

/// A copy of a card pool, element for element.
pub(crate) fn clone_cards(cards: &Vec<Card>) -> (r: Vec<Card>)
    ensures
        r@ == cards@,
{
    let r = cards.clone();
    proof {
        assert(r@ =~= cards@);
    }
    r
}

/// Whether the pool holds this exact card.
pub(crate) fn contains_card(cards: &Vec<Card>, card: &Card) -> (b: bool)
    ensures
        b == cards@.contains(*card),
{
    let mut i: usize = 0;
    while i < cards.len()
        invariant
            0 <= i <= cards@.len(),
            forall|j: int| 0 <= j < i ==> cards@[j] != *card,
        decreases cards@.len() - i,
    {
        if cards[i] == *card {
            return true;
        }
        i = i + 1;
    }
    false
}

} // verus!
