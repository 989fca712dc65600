//! The playlist sequencer: an endless sequence of track identifiers, drawn
//! from the catalog one shuffle cycle after another.

use rand::seq::SliceRandom;
use vstd::prelude::*;
use vstd::seq_lib::lemma_multiset_commutative;

verus! {

/// Puts `items` in a random order with `rand::seq::SliceRandom::shuffle`,
/// driven by the generator of the calling thread, `rand::rng`. The shuffle
/// only swaps items, so the same items are there afterwards, each as often
/// as before. Nothing is claimed of their order.
#[verifier::external_body]
fn shuffle<T>(items: &mut Vec<T>)
    ensures
        final(items)@.to_multiset() == old(items)@.to_multiset(),
        final(items)@.len() == old(items)@.len(),
{
    items.shuffle(&mut rand::rng());
}

/// What a pull on the playlist gives.
pub enum PlaylistStep<T> {
    /// The next track of the cycle.
    Track(T),
    /// The cycle is drained: a snapshot of the catalog is needed.
    NeedSnapshot,
    /// The catalog is empty: nothing is given now, and the pull is to be
    /// made again later.
    Suspend,
}

/// The order in which a working list is emitted: from its end to its
/// start.
pub open spec fn emission<T>(working: Seq<T>) -> Seq<T> {
    working.reverse()
}

/// What a pull gives on the working list `working`, and the list
/// afterwards. `refilled` says whether a snapshot has just been taken in.
pub open spec fn pull_step<T>(working: Seq<T>, refilled: bool) -> (Seq<T>, PlaylistStep<T>) {
    if working.len() > 0 {
        (working.drop_last(), PlaylistStep::Track(working.last()))
    } else if refilled {
        (working, PlaylistStep::Suspend)
    } else {
        (working, PlaylistStep::NeedSnapshot)
    }
}

/// The tracks that remain to be played in the current shuffle cycle.
pub struct Playlist<T> {
    current: Vec<T>,
}

impl<T> View for Playlist<T> {
    type V = Seq<T>;

    closed spec fn view(&self) -> Seq<T> {
        self.current@
    }
}

impl<T> Playlist<T> {
    /// A playlist whose first cycle is still to be drawn.
    pub fn new() -> (playlist: Playlist<T>)
        ensures
            playlist@ == Seq::<T>::empty(),
    {
        Playlist { current: Vec::new() }
    }

    /// How many tracks remain in the current cycle.
    pub fn remaining(&self) -> (n: usize)
        ensures
            n == self@.len(),
    {
        self.current.len()
    }

    /// Takes the next track of the current cycle, if one remains.
    pub fn pop(&mut self) -> (track: Option<T>)
        ensures
            old(self)@.len() == 0 ==> track is None && final(self)@ == old(self)@,
            old(self)@.len() > 0 ==> track == Some(old(self)@.last()) && final(self)@ == old(
                self,
            )@.drop_last(),
    {
        self.current.pop()
    }

    /// Starts a new cycle from a snapshot of the catalog: takes in every
    /// identifier of the snapshot and shuffles the working list. Every order
    /// may come out; the identifiers are those that were there and those of
    /// the snapshot, each as often as it occurred.
    pub fn refill(&mut self, snapshot: Vec<T>)
        ensures
            final(self)@.to_multiset() == old(self)@.to_multiset().add(snapshot@.to_multiset()),
            final(self)@.len() == old(self)@.len() + snapshot@.len(),
    {
        let mut snapshot = snapshot;
        proof {
            lemma_multiset_commutative(self.current@, snapshot@);
        }
        self.current.append(&mut snapshot);
        shuffle(&mut self.current);
    }

    /// One pull on the playlist. A snapshot that is handed in starts a new
    /// cycle first. Then the next track is given where one remains; where
    /// none does, the pull asks for a snapshot, or, right after an empty
    /// snapshot, says to come back later.
    pub fn poll_next(&mut self, snapshot: Option<Vec<T>>) -> (step: PlaylistStep<T>)
        ensures
            snapshot is None ==> (final(self)@, step) == pull_step(old(self)@, false),
            snapshot matches Some(ids) ==> exists|working: Seq<T>|
                {
                    &&& #[trigger] working.to_multiset() == old(self)@.to_multiset().add(
                        ids@.to_multiset(),
                    )
                    &&& working.len() == old(self)@.len() + ids@.len()
                    &&& (final(self)@, step) == pull_step(working, true)
                },
    {
        let refilled = match snapshot {
            Some(ids) => {
                self.refill(ids);
                true
            },
            None => false,
        };
        match self.current.pop() {
            Some(track) => PlaylistStep::Track(track),
            None => {
                if refilled {
                    PlaylistStep::Suspend
                } else {
                    PlaylistStep::NeedSnapshot
                }
            },
        }
    }
}

/// Pulling takes the head of the emission order and leaves its tail.
pub proof fn lemma_pull_follows_emission<T>(working: Seq<T>, refilled: bool)
    requires
        working.len() > 0,
    ensures
        pull_step(working, refilled).1 == PlaylistStep::Track(emission(working)[0]),
        emission(pull_step(working, refilled).0) == emission(working).skip(1),
{
    assert(emission(working.drop_last()) =~= emission(working).skip(1));
}

/// A cycle emits every identifier of its snapshot exactly as often as the
/// snapshot holds it, and nothing else: once each where the snapshot holds
/// nothing twice. This holds of every order that the shuffle may give.
pub proof fn lemma_cycle_emits_each_once<T>(snapshot: Seq<T>, working: Seq<T>)
    requires
        working.to_multiset() == snapshot.to_multiset(),
    ensures
        emission(working).len() == snapshot.len(),
        emission(working).to_multiset() == snapshot.to_multiset(),
        forall|id: T| emission(working).contains(id) <==> snapshot.contains(id),
        snapshot.no_duplicates() ==> emission(working).no_duplicates(),
{
    let emitted = emission(working);
    working.lemma_reverse_to_multiset();
    working.to_multiset_ensures();
    snapshot.to_multiset_ensures();
    emitted.to_multiset_ensures();
    assert forall|id: T| emitted.contains(id) <==> snapshot.contains(id) by {
        assert(emitted.contains(id) <==> emitted.to_multiset().count(id) > 0);
        assert(snapshot.contains(id) <==> snapshot.to_multiset().count(id) > 0);
    }
    if snapshot.no_duplicates() {
        snapshot.lemma_multiset_has_no_duplicates();
        emitted.lemma_multiset_has_no_duplicates_conv();
    }
}

/// A cycle drawn from an empty catalog emits nothing.
pub proof fn lemma_empty_catalog_emits_nothing<T>(working: Seq<T>)
    requires
        working.to_multiset() == Seq::<T>::empty().to_multiset(),
    ensures
        working.len() == 0,
        pull_step(working, true).1 == PlaylistStep::<T>::Suspend,
{
    working.to_multiset_ensures();
    Seq::<T>::empty().to_multiset_ensures();
}

} // verus!
