//! Small helpers of the pages.

use vstd::prelude::*;

verus! {

/// The colour classes a page background is picked from.
pub open spec fn colours() -> Seq<Seq<char>> {
    seq![
        "teal lighten-1"@,
        "orange accent-3"@,
        "blue-grey lighten-1"@,
        "deep-orange darken-2"@,
        "lime darken-1"@,
        "cyan lighten-1"@,
        "purple lighten-1"@,
        "pink darken-1"@,
    ]
}

/// `colour` is one of the colour classes.
pub open spec fn is_colour(colour: Seq<char>) -> bool {
    exists|i: int| 0 <= i < colours().len() && #[trigger] colours()[i] == colour
}

/// `picked` is one of the texts in `list`.
pub open spec fn holds(list: Seq<&'static str>, picked: Seq<char>) -> bool {
    exists|i: int| 0 <= i < list.len() && (#[trigger] list[i])@ == picked
}

/// Calls `SliceRandom::choose` of the `rand` crate with the thread's
/// generator. On a list that is not empty it returns one of the items; which
/// one is left to chance. The contract says so and is not proved.
#[verifier::external_body]
fn pick_one(list: &Vec<&'static str>) -> (picked: &'static str)
    requires
        list@.len() > 0,
    ensures
        holds(list@, picked@),
{
    rand::seq::SliceRandom::choose(list.as_slice(), &mut rand::thread_rng()).unwrap()
}

/// One of the colour classes, picked at random.
pub fn random_colour() -> (colour: &'static str)
    ensures
        is_colour(colour@),
{
    let list: Vec<&'static str> = vec![
        "teal lighten-1",
        "orange accent-3",
        "blue-grey lighten-1",
        "deep-orange darken-2",
        "lime darken-1",
        "cyan lighten-1",
        "purple lighten-1",
        "pink darken-1",
    ];
    let picked = pick_one(&list);
    proof {
        let i = choose|i: int| 0 <= i < list@.len() && (#[trigger] list@[i])@ == picked@;
        assert(colours()[i] == list@[i]@);
    }
    picked
}

} // verus!
