use vstd::prelude::*;

verus! {

/// A reference to one track of the saved-tracks collection: its opaque
/// identifier and its display name, both as handed back by the remote API.
#[derive(Clone, Debug)]
pub struct TrackRef {
    pub id: String,
    pub name: String,
}

/// The identifiers of a sequence of tracks, in order.
pub open spec fn ids_of(tracks: Seq<TrackRef>) -> Seq<Seq<char>> {
    tracks.map_values(|t: TrackRef| t.id@)
}

/// The set of identifiers occurring in a sequence of tracks.
pub open spec fn id_set(tracks: Seq<TrackRef>) -> Set<Seq<char>> {
    ids_of(tracks).to_set()
}

/// The tracks that survive decoding: `None` stands for an entry of the
/// collection that failed to decode and is dropped; the order of the
/// remaining entries is kept.
pub open spec fn kept_items(items: Seq<Option<TrackRef>>) -> Seq<TrackRef>
    decreases items.len(),
{
    if items.len() == 0 {
        Seq::empty()
    } else {
        let rest = kept_items(items.drop_last());
        match items.last() {
            Some(t) => rest.push(t),
            None => rest,
        }
    }
}

/// Appends to `acc` every decoded entry of `items`, in order, dropping the
/// entries that failed to decode.
pub fn collect_decoded(items: Vec<Option<TrackRef>>, acc: &mut Vec<TrackRef>)
    ensures
        final(acc)@ == old(acc)@ + kept_items(items@),
{
    let ghost all = items@;
    for item in it: items.into_iter()
        invariant
            it.seq() == all,
            0 <= it.index() <= all.len(),
            acc@ == old(acc)@ + kept_items(all.take(it.index() as int)),
    {
        proof {
            let k = it.index() as int;
            assert(all.take(k + 1).drop_last() =~= all.take(k));
            assert(all.take(k + 1).last() == all[k]);
        }
        if let Some(t) = item {
            acc.push(t);
        }
    }
    proof {
        assert(all.take(all.len() as int) =~= all);
    }
}

/// The first `n` tracks, or all of them when fewer exist: what the
/// progress output shows of the collection.
pub fn take_prefix(tracks: &Vec<TrackRef>, n: usize) -> (r: Vec<TrackRef>)
    ensures
        r@.len() == if n <= tracks@.len() {
            n as int
        } else {
            tracks@.len() as int
        },
        forall|i: int| 0 <= i < r@.len() ==> #[trigger] r@[i] == tracks@[i],
{
    let count = if n <= tracks.len() {
        n
    } else {
        tracks.len()
    };
    let mut r: Vec<TrackRef> = Vec::new();
    for i in it: 0..count
        invariant
            count <= tracks@.len(),
            r@.len() == it.index(),
            forall|k: int| 0 <= k < r@.len() ==> #[trigger] r@[k] == tracks@[k],
    {
        r.push(TrackRef { id: tracks[i].id.clone(), name: tracks[i].name.clone() });
    }
    r
}

/// The identifiers of the given tracks, as a sequence of their own.
pub fn track_ids(tracks: &Vec<TrackRef>) -> (r: Vec<String>)
    ensures
        r.deep_view() == ids_of(tracks@),
{
    let mut r: Vec<String> = Vec::new();
    for i in it: 0..tracks.len()
        invariant
            it.index() == r.len(),
            r.deep_view() =~= ids_of(tracks@).take(it.index() as int),
    {
        r.push(tracks[i].id.clone());
        proof {
            assert(r.deep_view() =~= ids_of(tracks@).take(i + 1));
        }
    }
    proof {
        assert(ids_of(tracks@).take(tracks@.len() as int) =~= ids_of(tracks@));
    }
    r
}

} // verus!
