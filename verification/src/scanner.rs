//! The live catalog of playable files: an ordered set of track identifiers,
//! and the rules by which a file watcher's notifications change it.

use vstd::prelude::*;

verus! {

/// The first index at or after `from` at which `a` and `b` stop agreeing:
/// either one of them ends there, or they hold different bytes there.
pub open spec fn first_difference(a: Seq<u8>, b: Seq<u8>, from: int) -> int
    decreases a.len() - from,
{
    if 0 <= from < a.len() && from < b.len() && a[from] == b[from] {
        first_difference(a, b, from + 1)
    } else {
        from
    }
}

/// Lexicographic order on track identifiers: `a` comes before `b` when, at
/// the first place where they differ, `a` has ended or holds the smaller byte.
pub open spec fn precedes(a: Seq<u8>, b: Seq<u8>) -> bool {
    let d = first_difference(a, b, 0);
    d < b.len() && (d >= a.len() || a[d] < b[d])
}

/// Every identifier of `ids` comes strictly before all that follow it.
pub open spec fn ascending(ids: Seq<Seq<u8>>) -> bool {
    forall|i: int, j: int| 0 <= i < j < ids.len() ==> precedes(#[trigger] ids[i], #[trigger] ids[j])
}

/// What `first_difference` finds: the two sequences agree from `from` up to
/// it, and do not agree at it.
pub proof fn lemma_first_difference(a: Seq<u8>, b: Seq<u8>, from: int)
    requires
        0 <= from <= a.len(),
        from <= b.len(),
    ensures
        from <= first_difference(a, b, from) <= a.len(),
        first_difference(a, b, from) <= b.len(),
        forall|i: int| from <= i < first_difference(a, b, from) ==> a[i] == b[i],
        first_difference(a, b, from) < a.len() && first_difference(a, b, from) < b.len() ==> a[first_difference(
            a,
            b,
            from,
        )] != b[first_difference(a, b, from)],
    decreases a.len() - from,
{
    if from < a.len() && from < b.len() && a[from] == b[from] {
        lemma_first_difference(a, b, from + 1);
    }
}

/// The place of the first difference is the only index that is preceded by
/// agreement and is itself a disagreement or an end.
pub proof fn lemma_first_difference_unique(a: Seq<u8>, b: Seq<u8>, d: int)
    requires
        0 <= d <= a.len(),
        d <= b.len(),
        forall|i: int| 0 <= i < d ==> a[i] == b[i],
        d == a.len() || d == b.len() || a[d] != b[d],
    ensures
        first_difference(a, b, 0) == d,
{
    lemma_first_difference(a, b, 0);
}

/// No identifier comes before itself.
pub proof fn lemma_precedes_irreflexive(a: Seq<u8>)
    ensures
        !precedes(a, a),
{
    lemma_first_difference(a, a, 0);
}

/// Of two identifiers, one comes before the other, or they are the same.
pub proof fn lemma_precedes_total(a: Seq<u8>, b: Seq<u8>)
    ensures
        precedes(a, b) || precedes(b, a) || a == b,
        !(precedes(a, b) && precedes(b, a)),
        a == b ==> !precedes(a, b),
{
    lemma_first_difference(a, b, 0);
    lemma_first_difference(b, a, 0);
    let d = first_difference(a, b, 0);
    lemma_first_difference_unique(b, a, d);
    if d == a.len() && d == b.len() {
        assert(a =~= b);
    }
    if a == b {
        lemma_precedes_irreflexive(a);
    }
}

/// The order is transitive.
pub proof fn lemma_precedes_transitive(a: Seq<u8>, b: Seq<u8>, c: Seq<u8>)
    requires
        precedes(a, b),
        precedes(b, c),
    ensures
        precedes(a, c),
{
    lemma_first_difference(a, b, 0);
    lemma_first_difference(b, c, 0);
    let d1 = first_difference(a, b, 0);
    let d2 = first_difference(b, c, 0);
    let d = if d1 <= d2 {
        d1
    } else {
        d2
    };
    assert forall|i: int| 0 <= i < d implies a[i] == c[i] by {
        assert(a[i] == b[i]);
        assert(b[i] == c[i]);
    }
    lemma_first_difference_unique(a, c, d);
}

/// In an ascending sequence nothing occurs twice.
pub proof fn lemma_ascending_distinct(ids: Seq<Seq<u8>>)
    requires
        ascending(ids),
    ensures
        ids.no_duplicates(),
{
    assert forall|i: int, j: int| 0 <= i < ids.len() && 0 <= j < ids.len() && i != j implies ids[i]
        != ids[j] by {
        if i < j {
            assert(precedes(ids[i], ids[j]));
            lemma_precedes_irreflexive(ids[i]);
        } else {
            assert(precedes(ids[j], ids[i]));
            lemma_precedes_irreflexive(ids[j]);
        }
    }
}

/// The handle of one playable file: the bytes of its path. It is never
/// changed once made.
#[derive(Debug)]
pub struct TrackId {
    bytes: Vec<u8>,
}

impl View for TrackId {
    type V = Seq<u8>;

    closed spec fn view(&self) -> Seq<u8> {
        self.bytes@
    }
}

impl Clone for TrackId {
    fn clone(&self) -> (copy: TrackId)
        ensures
            copy@ == self@,
    {
        TrackId { bytes: self.bytes.clone() }
    }
}

/// How two identifiers stand to each other in the order of the catalog.
#[derive(Clone, Copy, Debug, PartialEq, Eq, Structural)]
pub enum Position {
    Before,
    Same,
    After,
}

impl TrackId {
    /// The identifier made of the given path bytes.
    pub fn new(bytes: Vec<u8>) -> (id: TrackId)
        ensures
            id@ == bytes@,
    {
        TrackId { bytes }
    }

    /// The path bytes of this identifier.
    pub fn as_bytes(&self) -> (bytes: &Vec<u8>)
        ensures
            bytes@ == self@,
    {
        &self.bytes
    }

    /// Where `self` stands relative to `other`.
    pub fn position(&self, other: &TrackId) -> (p: Position)
        ensures
            p == Position::Before <==> precedes(self@, other@),
            p == Position::Same <==> self@ == other@,
            p == Position::After <==> precedes(other@, self@),
    {
        let a = &self.bytes;
        let b = &other.bytes;
        let mut i: usize = 0;
        while i < a.len() && i < b.len() && a[i] == b[i]
            invariant
                i <= a.len(),
                i <= b.len(),
                forall|k: int| 0 <= k < i ==> a@[k] == b@[k],
            decreases a.len() - i,
        {
            i += 1;
        }
        proof {
            lemma_first_difference_unique(a@, b@, i as int);
            lemma_first_difference_unique(b@, a@, i as int);
            lemma_precedes_total(a@, b@);
            if i == a.len() && i == b.len() {
                assert(a@ =~= b@);
            }
        }
        if i == a.len() {
            if i == b.len() {
                Position::Same
            } else {
                Position::Before
            }
        } else if i == b.len() {
            Position::After
        } else if a[i] < b[i] {
            Position::Before
        } else {
            Position::After
        }
    }
}

/// What a file watcher reports of one path.
#[derive(Clone, Copy, Debug, PartialEq, Eq, Structural)]
pub enum ChangeKind {
    Any,
    Access,
    Create,
    Modify,
    Remove,
    Other,
}

/// What a file watcher reports when watching itself went wrong.
#[derive(Clone, Copy, Debug, PartialEq, Eq, Structural)]
pub enum FaultKind {
    Generic,
    Io,
    PathNotFound,
    WatchNotFound,
    InvalidConfig,
    MaxFilesWatch,
}

/// The identifiers held by `tracks`, in their order.
pub open spec fn ids_of(tracks: Seq<TrackId>) -> Seq<Seq<u8>> {
    tracks.map_values(|t: TrackId| t@)
}

/// The set of playable files: identifiers in ascending order, none twice.
pub struct Catalog {
    tracks: Vec<TrackId>,
}

impl View for Catalog {
    type V = Seq<Seq<u8>>;

    closed spec fn view(&self) -> Seq<Seq<u8>> {
        ids_of(self.tracks@)
    }
}

impl Catalog {
    #[verifier::type_invariant]
    spec fn well_formed(&self) -> bool {
        ascending(ids_of(self.tracks@))
    }

    /// The identifiers of the catalog, as a set.
    pub open spec fn members(&self) -> Set<Seq<u8>> {
        self@.to_set()
    }

    /// The catalog of no files.
    pub fn new() -> (catalog: Catalog)
        ensures
            catalog@ == Seq::<Seq<u8>>::empty(),
    {
        let catalog = Catalog { tracks: Vec::new() };
        assert(catalog@ =~= Seq::<Seq<u8>>::empty());
        catalog
    }

    /// How many files the catalog holds.
    pub fn len(&self) -> (n: usize)
        ensures
            n == self@.len(),
    {
        self.tracks.len()
    }

    /// The index of the first identifier that does not come before `id`.
    fn lower_bound(&self, id: &TrackId) -> (at: usize)
        ensures
            at <= self@.len(),
            forall|k: int| 0 <= k < at ==> precedes(#[trigger] self@[k], id@),
            at < self@.len() ==> !precedes(self@[at as int], id@),
    {
        let mut at: usize = 0;
        while at < self.tracks.len()
            invariant
                at <= self.tracks.len(),
                forall|k: int| 0 <= k < at ==> precedes(#[trigger] self@[k], id@),
            ensures
                at <= self.tracks.len(),
                forall|k: int| 0 <= k < at ==> precedes(#[trigger] self@[k], id@),
                at < self@.len() ==> !precedes(self@[at as int], id@),
            decreases self.tracks.len() - at,
        {
            let p = self.tracks[at].position(id);
            if p != Position::Before {
                break ;
            }
            at += 1;
        }
        at
    }

    /// Whether `id` is in the catalog.
    pub fn contains(&self, id: &TrackId) -> (found: bool)
        ensures
            found == self@.contains(id@),
    {
        let at = self.lower_bound(id);
        proof {
            use_type_invariant(self);
            lemma_absent_beyond(self@, id@, at as int);
        }
        if at < self.tracks.len() {
            let p = self.tracks[at].position(id);
            p == Position::Same
        } else {
            false
        }
    }

    /// Adds `id`, unless the catalog holds it already. Returns whether it
    /// was added.
    pub fn insert(&mut self, id: TrackId) -> (added: bool)
        ensures
            added == !old(self)@.contains(id@),
            final(self).members() == old(self).members().insert(id@),
            !added ==> final(self)@ == old(self)@,
            ascending(final(self)@),
    {
        let at = self.lower_bound(&id);
        proof {
            use_type_invariant(&*self);
            lemma_absent_beyond(self@, id@, at as int);
        }
        if at < self.tracks.len() {
            let p = self.tracks[at].position(&id);
            if p == Position::Same {
                assert(self.members().insert(id@) =~= self.members());
                return false;
            }
        }
        proof {
            lemma_insert_keeps_order(self@, id@, at as int);
            assert(ids_of(self.tracks@.insert(at as int, id)) =~= self@.insert(at as int, id@));
            lemma_insert_members(self@, id@, at as int);
        }
        let mut tracks: Vec<TrackId> = Vec::new();
        core::mem::swap(&mut self.tracks, &mut tracks);
        tracks.insert(at, id);
        self.tracks = tracks;
        true
    }

    /// Takes `id` out, if the catalog holds it. Returns whether it did.
    pub fn remove(&mut self, id: &TrackId) -> (removed: bool)
        ensures
            removed == old(self)@.contains(id@),
            final(self).members() == old(self).members().remove(id@),
            !removed ==> final(self)@ == old(self)@,
            ascending(final(self)@),
    {
        let at = self.lower_bound(id);
        proof {
            use_type_invariant(&*self);
            lemma_absent_beyond(self@, id@, at as int);
        }
        if at < self.tracks.len() {
            let p = self.tracks[at].position(id);
            if p == Position::Same {
                proof {
                    lemma_remove_keeps_order(self@, at as int);
                    assert(ids_of(self.tracks@.remove(at as int)) =~= self@.remove(at as int));
                    lemma_remove_members(self@, at as int);
                }
                let mut tracks: Vec<TrackId> = Vec::new();
                core::mem::swap(&mut self.tracks, &mut tracks);
                let _ = tracks.remove(at);
                self.tracks = tracks;
                return true;
            }
        }
        assert(self.members().remove(id@) =~= self.members());
        false
    }

    /// Replaces the whole catalog by the files that a fresh scan found.
    pub fn replace(&mut self, scanned: Vec<TrackId>)
        ensures
            final(self).members() == ids_of(scanned@).to_set(),
            ascending(final(self)@),
    {
        let mut fresh = Catalog::new();
        let mut scanned = scanned;
        let ghost all = ids_of(scanned@);
        let ghost mut done: Seq<Seq<u8>> = Seq::empty();
        proof {
            assert(fresh.members() =~= done.to_set());
            assert(ids_of(scanned@) + done =~= all);
        }
        // Taken from the back: the order of insertion does not matter to a set.
        while scanned.len() > 0
            invariant
                fresh.members() == done.to_set(),
                ids_of(scanned@) + done == all,
            decreases scanned.len(),
        {
            let ghost before = ids_of(scanned@);
            let id = scanned.pop().unwrap();
            proof {
                assert(ids_of(scanned@) =~= before.drop_last());
                assert(before.last() == id@);
                assert(ids_of(scanned@) + (seq![id@] + done) =~= before + done);
                assert(seq![id@] + done =~= done.insert(0, id@));
                lemma_insert_members(done, id@, 0);
                done = seq![id@] + done;
            }
            fresh.insert(id);
        }
        proof {
            assert(ids_of(scanned@) =~= Seq::<Seq<u8>>::empty());
            assert(done =~= all);
            use_type_invariant(&fresh);
        }
        *self = fresh;
    }

    /// The identifiers of the catalog at this moment, in ascending order.
    pub fn snapshot(&self) -> (ids: Vec<TrackId>)
        ensures
            ids_of(ids@) == self@,
            ascending(ids_of(ids@)),
    {
        let mut ids: Vec<TrackId> = Vec::new();
        let mut i: usize = 0;
        while i < self.tracks.len()
            invariant
                i <= self.tracks.len(),
                ids_of(ids@) == self@.take(i as int),
            decreases self.tracks.len() - i,
        {
            let copy = self.tracks[i].clone();
            proof {
                assert(copy@ == self@[i as int]);
                assert(ids_of(ids@.push(copy)) =~= ids_of(ids@).push(copy@));
                assert(self@.take(i as int + 1) =~= self@.take(i as int).push(self@[i as int]));
            }
            ids.push(copy);
            i += 1;
        }
        proof {
            use_type_invariant(self);
            assert(self@.take(i as int) =~= self@);
        }
        ids
    }

    /// Applies what the watcher reports of one path. A created file joins
    /// the catalog and a removed one leaves it; nothing else changes it.
    /// Returns whether the report calls for a fresh scan of the directory.
    pub fn apply_change(&mut self, path: TrackId, kind: ChangeKind) -> (rescan: bool)
        ensures
            rescan == (kind == ChangeKind::Other),
            final(self).members() == change_applied(old(self).members(), path@, kind),
            ascending(final(self)@),
    {
        match kind {
            ChangeKind::Create => {
                self.insert(path);
                false
            },
            ChangeKind::Remove => {
                self.remove(&path);
                false
            },
            ChangeKind::Other => {
                proof {
                    use_type_invariant(&*self);
                }
                true
            },
            _ => {
                proof {
                    use_type_invariant(&*self);
                }
                false
            },
        }
    }

    /// Applies a fault that the watcher reports. Paths that are no longer
    /// found leave the catalog; every other fault leaves it as it is.
    pub fn apply_fault(&mut self, kind: FaultKind, paths: Vec<TrackId>)
        ensures
            final(self).members() == fault_applied(old(self).members(), ids_of(paths@), kind),
            ascending(final(self)@),
    {
        proof {
            use_type_invariant(&*self);
        }
        if kind == FaultKind::PathNotFound {
            let mut i: usize = 0;
            proof {
                assert(ids_of(paths@).take(0).to_set() =~= Set::<Seq<u8>>::empty());
                assert(self.members().difference(Set::<Seq<u8>>::empty()) =~= self.members());
            }
            while i < paths.len()
                invariant
                    i <= paths.len(),
                    self.members() == old(self).members().difference(
                        ids_of(paths@).take(i as int).to_set(),
                    ),
                    ascending(self@),
                decreases paths.len() - i,
            {
                let ghost gone = ids_of(paths@).take(i as int);
                self.remove(&paths[i]);
                proof {
                    let next = ids_of(paths@).take(i as int + 1);
                    assert(next =~= gone.push(paths@[i as int]@));
                    assert(next =~= gone.insert(gone.len() as int, paths@[i as int]@));
                    lemma_insert_members(gone, paths@[i as int]@, gone.len() as int);
                    assert(old(self).members().difference(gone.to_set()).remove(paths@[i as int]@)
                        =~= old(self).members().difference(next.to_set()));
                }
                i += 1;
            }
            proof {
                assert(ids_of(paths@).take(i as int) =~= ids_of(paths@));
            }
        }
    }
}

/// The members of a catalog after one report of the watcher on `path`.
pub open spec fn change_applied(members: Set<Seq<u8>>, path: Seq<u8>, kind: ChangeKind) -> Set<
    Seq<u8>,
> {
    match kind {
        ChangeKind::Create => members.insert(path),
        ChangeKind::Remove => members.remove(path),
        _ => members,
    }
}

/// The members of a catalog after one fault that the watcher reported.
pub open spec fn fault_applied(members: Set<Seq<u8>>, paths: Seq<Seq<u8>>, kind: FaultKind) -> Set<
    Seq<u8>,
> {
    if kind == FaultKind::PathNotFound {
        members.difference(paths.to_set())
    } else {
        members
    }
}

/// In an ascending sequence, an identifier that is not at the first place
/// that does not come before it is nowhere.
proof fn lemma_absent_beyond(ids: Seq<Seq<u8>>, id: Seq<u8>, at: int)
    requires
        ascending(ids),
        0 <= at <= ids.len(),
        forall|k: int| 0 <= k < at ==> precedes(#[trigger] ids[k], id),
        at < ids.len() ==> !precedes(ids[at], id),
    ensures
        ids.contains(id) <==> (at < ids.len() && ids[at] == id),
        at < ids.len() && ids[at] != id ==> precedes(id, ids[at]),
{
    if at < ids.len() {
        lemma_precedes_total(ids[at], id);
    }
    if ids.contains(id) {
        let k = choose|k: int| 0 <= k < ids.len() && ids[k] == id;
        lemma_precedes_irreflexive(id);
        if k < at {
            assert(precedes(ids[k], id));
        } else if k > at {
            assert(precedes(ids[at], ids[k]));
        }
    }
}

/// Putting an identifier at the place where it belongs keeps the order.
proof fn lemma_insert_keeps_order(ids: Seq<Seq<u8>>, id: Seq<u8>, at: int)
    requires
        ascending(ids),
        0 <= at <= ids.len(),
        forall|k: int| 0 <= k < at ==> precedes(#[trigger] ids[k], id),
        at < ids.len() ==> precedes(id, ids[at]),
    ensures
        ascending(ids.insert(at, id)),
{
    let next = ids.insert(at, id);
    assert forall|i: int, j: int| 0 <= i < j < next.len() implies precedes(
        #[trigger] next[i],
        #[trigger] next[j],
    ) by {
        if j < at {
            assert(precedes(ids[i], ids[j]));
        } else if j == at {
            assert(precedes(ids[i], id));
        } else if i == at {
            if j - 1 > at {
                assert(precedes(ids[at], ids[j - 1]));
                lemma_precedes_transitive(id, ids[at], ids[j - 1]);
            }
        } else if i < at {
            assert(precedes(ids[i], ids[j - 1]));
        } else {
            assert(precedes(ids[i - 1], ids[j - 1]));
        }
    }
}

/// Taking an identifier out keeps the order.
proof fn lemma_remove_keeps_order(ids: Seq<Seq<u8>>, at: int)
    requires
        ascending(ids),
        0 <= at < ids.len(),
    ensures
        ascending(ids.remove(at)),
{
    let next = ids.remove(at);
    assert forall|i: int, j: int| 0 <= i < j < next.len() implies precedes(
        #[trigger] next[i],
        #[trigger] next[j],
    ) by {
        let i0 = if i < at { i } else { i + 1 };
        let j0 = if j < at { j } else { j + 1 };
        assert(precedes(ids[i0], ids[j0]));
    }
}

/// The members after an insertion are the old ones and the new one.
proof fn lemma_insert_members(ids: Seq<Seq<u8>>, id: Seq<u8>, at: int)
    requires
        0 <= at <= ids.len(),
    ensures
        ids.insert(at, id).to_set() == ids.to_set().insert(id),
{
    let next = ids.insert(at, id);
    assert forall|x: Seq<u8>| next.to_set().contains(x) <==> ids.to_set().insert(id).contains(
        x,
    ) by {
        if next.contains(x) {
            let k = choose|k: int| 0 <= k < next.len() && next[k] == x;
            if k < at {
                assert(ids[k] == x);
            } else if k > at {
                assert(ids[k - 1] == x);
            }
        }
        if ids.contains(x) {
            let k = choose|k: int| 0 <= k < ids.len() && ids[k] == x;
            if k < at {
                assert(next[k] == x);
            } else {
                assert(next[k + 1] == x);
            }
        }
        if x == id {
            assert(next[at] == x);
        }
    }
    assert(next.to_set() =~= ids.to_set().insert(id));
}

/// The members after a removal from an ascending sequence are the old ones
/// without the one taken out.
proof fn lemma_remove_members(ids: Seq<Seq<u8>>, at: int)
    requires
        ascending(ids),
        0 <= at < ids.len(),
    ensures
        ids.remove(at).to_set() == ids.to_set().remove(ids[at]),
{
    let next = ids.remove(at);
    lemma_ascending_distinct(ids);
    assert forall|x: Seq<u8>| next.to_set().contains(x) <==> ids.to_set().remove(ids[at]).contains(
        x,
    ) by {
        if next.contains(x) {
            let k = choose|k: int| 0 <= k < next.len() && next[k] == x;
            if k < at {
                assert(ids[k] == x);
            } else {
                assert(ids[k + 1] == x);
            }
        }
        if ids.contains(x) && x != ids[at] {
            let k = choose|k: int| 0 <= k < ids.len() && ids[k] == x;
            if k < at {
                assert(next[k] == x);
            } else {
                assert(next[k - 1] == x);
            }
        }
    }
    assert(next.to_set() =~= ids.to_set().remove(ids[at]));
}

} // verus!
