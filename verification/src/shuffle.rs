use vstd::prelude::*;
use crate::track::{TrackRef, id_set};
use crate::writer::lemma_permutation_same_id_set;

verus! {

/// Relies on rand's `SliceRandom::shuffle` with `rand::thread_rng`: a
/// Fisher-Yates shuffle rearranges the slice in place by swaps, so whatever
/// order comes out, the new contents are a permutation of the old.
#[verifier::external_body]
fn shuffle_in_place(tracks: &mut Vec<TrackRef>)
    ensures
        final(tracks)@.len() == old(tracks)@.len(),
        final(tracks)@.to_multiset() == old(tracks)@.to_multiset(),
{
    rand::seq::SliceRandom::shuffle(tracks.as_mut_slice(), &mut rand::thread_rng());
}

/// Puts the saved tracks into a uniformly random order, drawn from the
/// process-local random source. The order of the result is unconstrained;
/// its contents are exactly the old ones: the same tracks as a multiset,
/// and so in particular the same set of track identifiers.
pub fn shuffle_tracks(tracks: &mut Vec<TrackRef>)
    ensures
        final(tracks)@.len() == old(tracks)@.len(),
        final(tracks)@.to_multiset() == old(tracks)@.to_multiset(),
        id_set(final(tracks)@) == id_set(old(tracks)@),
{
    shuffle_in_place(tracks);
    proof {
        lemma_permutation_same_id_set(tracks@, old(tracks)@);
    }
}

} // verus!
