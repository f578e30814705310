//! The pending-file store: an ordered list of paths, appended to by the
//! producers and emptied at once by a query.
use vstd::prelude::*;

verus! {

/// Paths waiting to be picked up by the presentation layer, in the order in
/// which they arrived. Duplicates are kept. Beside the pending paths the store
/// records, as ghost state, every path ever appended and every path ever
/// handed out by a drain, in order.
pub struct PendingFileStore {
    files: Vec<String>,
    appended: Ghost<Seq<String>>,
    delivered: Ghost<Seq<String>>,
}

impl View for PendingFileStore {
    type V = Seq<String>;

    closed spec fn view(&self) -> Seq<String> {
        self.files@
    }
}

impl PendingFileStore {
    /// Every path appended to this store since it was made, in order.
    pub closed spec fn appended(&self) -> Seq<String> {
        self.appended@
    }

    /// Every path that drains of this store have returned, one drain after
    /// the other.
    pub closed spec fn delivered(&self) -> Seq<String> {
        self.delivered@
    }

    /// What has been delivered, followed by what is pending, is exactly what
    /// has been appended.
    #[verifier::type_invariant]
    closed spec fn accounted(&self) -> bool {
        self.delivered@ + self.files@ == self.appended@
    }

    /// An empty store.
    pub fn new() -> (r: PendingFileStore)
        ensures
            r@ == Seq::<String>::empty(),
            r.appended() == Seq::<String>::empty(),
            r.delivered() == Seq::<String>::empty(),
    {
        let r = PendingFileStore {
            files: Vec::new(),
            appended: Ghost(Seq::empty()),
            delivered: Ghost(Seq::empty()),
        };
        assert(r.delivered@ + r.files@ =~= r.appended@);
        r
    }
}

/// Nothing is lost and nothing is delivered twice, whatever the interleaving
/// of appends and drains: the paths that the drains of a store returned,
/// followed by the paths still pending, are the appended paths, in order; as
/// multisets, delivered and pending together are what was appended, so once
/// nothing is pending every appended occurrence was delivered exactly once.
pub open spec fn nothing_lost_nothing_twice(store: PendingFileStore) -> bool {
    &&& store.delivered() + store@ == store.appended()
    &&& store.delivered().to_multiset().add(store@.to_multiset()) == store.appended().to_multiset()
    &&& store@.len() == 0 ==> store.delivered().to_multiset() == store.appended().to_multiset()
}

proof fn lemma_accounted_store(store: PendingFileStore)
    requires
        store.delivered() + store@ == store.appended(),
    ensures
        nothing_lost_nothing_twice(store),
{
    vstd::seq_lib::lemma_multiset_commutative(store.delivered(), store@);
    if store@.len() == 0 {
        assert(store.delivered() + store@ =~= store.delivered());
    }
}

/// Appends `paths` to the end of the store, keeping their order.
pub fn add_pending_files(store: &mut PendingFileStore, paths: Vec<String>)
    ensures
        final(store)@ == old(store)@ + paths@,
        final(store).appended() == old(store).appended() + paths@,
        final(store).delivered() == old(store).delivered(),
        nothing_lost_nothing_twice(*final(store)),
{
    let mut held = PendingFileStore::new();
    std::mem::swap(store, &mut held);
    proof {
        use_type_invariant(&held);
    }
    let PendingFileStore { files, appended, delivered } = held;
    let ghost added = paths@;
    let mut files = files;
    let mut paths = paths;
    files.append(&mut paths);
    assert(delivered@ + files@ =~= appended@ + added);
    let grown = PendingFileStore { files, appended: Ghost(appended@ + added), delivered };
    proof {
        lemma_accounted_store(grown);
    }
    *store = grown;
}

/// Removes and returns every pending path, in insertion order, leaving the
/// store empty.
pub fn get_pending_files(store: &mut PendingFileStore) -> (r: Vec<String>)
    ensures
        r@ == old(store)@,
        final(store)@ == Seq::<String>::empty(),
        final(store).appended() == old(store).appended(),
        final(store).delivered() == old(store).delivered() + r@,
        nothing_lost_nothing_twice(*final(store)),
{
    let mut held = PendingFileStore::new();
    std::mem::swap(store, &mut held);
    proof {
        use_type_invariant(&held);
    }
    let PendingFileStore { files, appended, delivered } = held;
    let ghost taken = files@;
    assert((delivered@ + taken) + Seq::<String>::empty() =~= appended@);
    let drained = PendingFileStore {
        files: Vec::new(),
        appended,
        delivered: Ghost(delivered@ + taken),
    };
    proof {
        lemma_accounted_store(drained);
    }
    *store = drained;
    files
}

/// One access to the store, as a model of its history: an append of a batch
/// of paths, or a drain.
pub enum StoreOp {
    Append(Seq<String>),
    Drain,
}

/// The store after `ops` have been applied, in order, to a store holding
/// `pending`, together with what each drain returned.
pub open spec fn replay(pending: Seq<String>, ops: Seq<StoreOp>) -> (Seq<String>, Seq<Seq<String>>)
    decreases ops.len(),
{
    if ops.len() == 0 {
        (pending, Seq::empty())
    } else {
        let (held, drained) = replay(pending, ops.drop_last());
        match ops.last() {
            StoreOp::Append(paths) => (held + paths, drained),
            StoreOp::Drain => (Seq::empty(), drained.push(held)),
        }
    }
}

/// A drain with nothing appended since the previous drain returns nothing.
pub proof fn lemma_drain_after_drain_is_empty(pending: Seq<String>, ops: Seq<StoreOp>)
    ensures
        replay(pending, ops + seq![StoreOp::Drain, StoreOp::Drain]).1.last() == Seq::<
            String,
        >::empty(),
{
    let all = ops + seq![StoreOp::Drain, StoreOp::Drain];
    let once = ops.push(StoreOp::Drain);
    assert(all.drop_last() =~= once);
    assert(once.drop_last() =~= ops);
    assert(replay(pending, once).0 == Seq::<String>::empty());
    assert(all.last() is Drain);
}

proof fn lemma_two_appends_then_drain(pending: Seq<String>, a: Seq<String>, b: Seq<String>)
    ensures
        replay(pending, seq![StoreOp::Append(a), StoreOp::Append(b), StoreOp::Drain]).1 == seq![
            pending + a + b,
        ],
{
    let ops = seq![StoreOp::Append(a), StoreOp::Append(b), StoreOp::Drain];
    let first = seq![StoreOp::Append(a)];
    let both = seq![StoreOp::Append(a), StoreOp::Append(b)];
    assert(first.drop_last() =~= Seq::<StoreOp>::empty());
    assert(both.drop_last() =~= first);
    assert(ops.drop_last() =~= both);
    assert(replay(pending, Seq::<StoreOp>::empty()) == (pending, Seq::<Seq<String>>::empty()));
    assert(first.last() == StoreOp::Append(a));
    assert(both.last() == StoreOp::Append(b));
    assert(replay(pending, first) == (pending + a, Seq::<Seq<String>>::empty()));
    assert(replay(pending, both) == (pending + a + b, Seq::<Seq<String>>::empty()));
    assert(replay(pending, ops).1 =~= seq![pending + a + b]);
}

/// Two appends of one path each that race for the store land in one order or
/// the other; the drain that follows returns what was pending before them and
/// then both paths, each once, in the order in which the appends took the
/// store.
pub proof fn lemma_racing_appends_both_delivered(pending: Seq<String>, p: String, q: String)
    ensures
        replay(
            pending,
            seq![StoreOp::Append(seq![p]), StoreOp::Append(seq![q]), StoreOp::Drain],
        ).1 == seq![pending + seq![p, q]],
        replay(
            pending,
            seq![StoreOp::Append(seq![q]), StoreOp::Append(seq![p]), StoreOp::Drain],
        ).1 == seq![pending + seq![q, p]],
        (pending + seq![p, q]).to_multiset() == pending.to_multiset().insert(p).insert(q),
        (pending + seq![q, p]).to_multiset() == pending.to_multiset().insert(p).insert(q),
{
    broadcast use vstd::seq_lib::group_to_multiset_ensures;

    lemma_two_appends_then_drain(pending, seq![p], seq![q]);
    lemma_two_appends_then_drain(pending, seq![q], seq![p]);
    assert(pending + seq![p] + seq![q] =~= pending + seq![p, q]);
    assert(pending + seq![q] + seq![p] =~= pending + seq![q, p]);
    assert(pending + seq![p, q] =~= pending.push(p).push(q));
    assert(pending + seq![q, p] =~= pending.push(q).push(p));
    assert(pending.to_multiset().insert(q).insert(p) =~= pending.to_multiset().insert(p).insert(
        q,
    ));
}

} // verus!
