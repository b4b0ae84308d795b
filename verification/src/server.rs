//! The database of recorded infrared signals behind the web interface:
//! listing, adding, replaying, renaming and deleting signals by id.
use crate::http::StatusCode;
use hashbrown::HashMap;
use nohash_hasher::BuildNoHashHasher;
use vstd::prelude::*;

verus! {

/// What a signal holds: its name and its samples.
pub type SignalView = (Seq<char>, Seq<u8>);

/// A recorded infrared signal: its user-given name and its samples, one per
/// tick (0 for a low receiver level, 1 for a high one).
#[derive(Debug)]
pub struct Signal {
    pub name: String,
    pub curve: Vec<u8>,
}

impl View for Signal {
    type V = SignalView;

    open spec fn view(&self) -> SignalView {
        (self.name@, self.curve@)
    }
}

impl Signal {
    /// A copy of this signal.
    pub fn duplicate(&self) -> (r: Signal)
        ensures
            r@ == self@,
    {
        let curve = self.curve.clone();
        assert(curve@ =~= self.curve@);
        Signal { name: self.name.clone(), curve }
    }
}

/// The signals stored under their ids, in a `hashbrown` map whose hasher
/// takes the id itself as the hash. The map is held in a struct of its own
/// because its allocator parameter is bounded by a trait of `allocator-api2`,
/// which the map's type cannot be declared without.
#[verifier::external_body]
pub struct SignalTable {
    map: HashMap<usize, Signal, BuildNoHashHasher<usize>>,
}

/// What a `SignalTable` holds: each stored id with its signal's name and
/// samples.
pub uninterp spec fn table_entries(table: SignalTable) -> Map<usize, SignalView>;

impl SignalTable {
    /// Calls `hashbrown::HashMap::default`, which makes an empty map.
    #[verifier::external_body]
    fn new() -> (table: SignalTable)
        ensures
            table_entries(table).is_empty(),
    {
        SignalTable { map: HashMap::default() }
    }

    /// Calls `hashbrown::HashMap::len`, the number of stored entries (a map
    /// holds finitely many).
    #[verifier::external_body]
    fn len(&self) -> (count: usize)
        ensures
            count == table_entries(*self).len(),
    {
        self.map.len()
    }

    /// Calls `hashbrown::HashMap::insert`: afterwards `id` maps to `signal`,
    /// and the signal it replaced, if any, comes back.
    #[verifier::external_body]
    fn insert(&mut self, id: usize, signal: Signal) -> (replaced: Option<Signal>)
        ensures
            table_entries(*final(self)) == table_entries(*old(self)).insert(id, signal@),
            match replaced {
                Some(s) => table_entries(*old(self)).contains_key(id) && s@ == table_entries(
                    *old(self),
                )[id],
                None => !table_entries(*old(self)).contains_key(id),
            },
    {
        self.map.insert(id, signal)
    }

    /// Calls `hashbrown::HashMap::get`: the signal stored under `id`, if any.
    #[verifier::external_body]
    fn get(&self, id: usize) -> (r: Option<&Signal>)
        ensures
            match r {
                Some(s) => table_entries(*self).contains_key(id) && s@ == table_entries(*self)[id],
                None => !table_entries(*self).contains_key(id),
            },
    {
        self.map.get(&id)
    }

    /// Calls `hashbrown::HashMap::get_mut`: a mutable reference to the signal
    /// stored under `id`, if any; what is written through it is what the map
    /// then holds under `id`.
    #[verifier::external_body]
    fn get_mut(&mut self, id: usize) -> (r: Option<&mut Signal>)
        ensures
            match r {
                Some(s) => {
                    &&& table_entries(*old(self)).contains_key(id)
                    &&& (*s)@ == table_entries(*old(self))[id]
                    &&& table_entries(*final(self)) == table_entries(*old(self)).insert(
                        id,
                        (*final(s))@,
                    )
                },
                None => {
                    &&& !table_entries(*old(self)).contains_key(id)
                    &&& table_entries(*final(self)) == table_entries(*old(self))
                },
            },
    {
        self.map.get_mut(&id)
    }

    /// Calls `hashbrown::HashMap::remove`: afterwards `id` is absent, and the
    /// signal that was stored under it, if any, comes back.
    #[verifier::external_body]
    fn remove(&mut self, id: usize) -> (removed: Option<Signal>)
        ensures
            table_entries(*final(self)) == table_entries(*old(self)).remove(id),
            match removed {
                Some(s) => table_entries(*old(self)).contains_key(id) && s@ == table_entries(
                    *old(self),
                )[id],
                None => !table_entries(*old(self)).contains_key(id),
            },
    {
        self.map.remove(&id)
    }

    /// Walks the map with `hashbrown::HashMap::iter` and hands out each id
    /// with a copy of its signal. Every stored entry comes out exactly once;
    /// the order is that of the map's table, which nothing here states.
    #[verifier::external_body]
    fn entries(&self) -> (items: Vec<(usize, Signal)>)
        ensures
            forall|i: int|
                0 <= i < items@.len() ==> table_entries(*self).contains_key(#[trigger] items@[i].0)
                    && items@[i].1@ == table_entries(*self)[items@[i].0],
            forall|i: int, j: int|
                0 <= i < j < items@.len() ==> #[trigger] items@[i].0 != #[trigger] items@[j].0,
            forall|id: usize|
                #[trigger] table_entries(*self).contains_key(id) ==> exists|i: int|
                    0 <= i < items@.len() && #[trigger] items@[i].0 == id,
    {
        self.map.iter().map(|(id, signal)| (*id, signal.duplicate())).collect()
    }
}


/// The signal database: recorded signals stored under numeric ids.
pub struct SignalDatabase {
    table: SignalTable,
}

impl View for SignalDatabase {
    type V = Map<usize, SignalView>;

    closed spec fn view(&self) -> Map<usize, SignalView> {
        table_entries(self.table)
    }
}

/// The database after adding a signal named `name` with samples `curve`:
/// the new id is the number of signals stored before, and the signal is
/// stored under it, replacing any signal that already had that id.
pub open spec fn after_add(db: Map<usize, SignalView>, name: Seq<char>, curve: Seq<u8>) -> (
    usize,
    Map<usize, SignalView>,
) {
    let id = db.len() as usize;
    (id, db.insert(id, (name, curve)))
}

/// The answer to a request naming signal `id`: success when it is stored,
/// not found otherwise.
pub open spec fn lookup_status(db: Map<usize, SignalView>, id: usize) -> StatusCode {
    if db.contains_key(id) {
        StatusCode::Success
    } else {
        StatusCode::NotFound
    }
}

/// The database after renaming signal `id` to `name`: its samples stay; an
/// absent id changes nothing.
pub open spec fn after_rename(db: Map<usize, SignalView>, id: usize, name: Seq<char>) -> Map<
    usize,
    SignalView,
> {
    if db.contains_key(id) {
        db.insert(id, (name, db[id].1))
    } else {
        db
    }
}

impl SignalDatabase {
    /// Every database holds finitely many signals.
    #[verifier::type_invariant]
    spec fn holds_finitely_many(self) -> bool {
        table_entries(self.table).dom().finite()
    }

    /// Takes the table out of the database, leaving an empty one in its
    /// place, so that the table can be changed while the database keeps its
    /// invariant.
    fn take_table(&mut self) -> (table: SignalTable)
        ensures
            table_entries(table) == old(self)@,
            table_entries(table).dom().finite(),
            final(self)@ == Map::<usize, SignalView>::empty(),
    {
        proof {
            use_type_invariant(&*self);
        }
        let mut table = SignalTable::new();
        core::mem::swap(&mut table, &mut self.table);
        table
    }

    /// An empty database.
    pub fn new() -> (db: SignalDatabase)
        ensures
            db@ == Map::<usize, SignalView>::empty(),
    {
        let table = SignalTable::new();
        assert(table_entries(table) =~= Map::<usize, SignalView>::empty());
        SignalDatabase { table }
    }

    /// The number of stored signals.
    pub fn len(&self) -> (n: usize)
        ensures
            n == self@.len(),
            self@.dom().finite(),
    {
        proof {
            use_type_invariant(self);
        }
        self.table.len()
    }

    /// Every stored signal with its id, each exactly once, in no stated
    /// order.
    pub fn list(&self) -> (items: Vec<(usize, Signal)>)
        ensures
            forall|i: int|
                0 <= i < items@.len() ==> self@.contains_key(#[trigger] items@[i].0) && items@[i].1@
                    == self@[items@[i].0],
            forall|i: int, j: int|
                0 <= i < j < items@.len() ==> #[trigger] items@[i].0 != #[trigger] items@[j].0,
            forall|id: usize|
                #[trigger] self@.contains_key(id) ==> exists|i: int|
                    0 <= i < items@.len() && #[trigger] items@[i].0 == id,
    {
        self.table.entries()
    }

    /// The signal stored under `id`, if any.
    pub fn get(&self, id: usize) -> (r: Option<&Signal>)
        ensures
            match r {
                Some(s) => self@.contains_key(id) && s@ == self@[id],
                None => !self@.contains_key(id),
            },
    {
        self.table.get(id)
    }

    /// Adds a signal under the id equal to the number of signals stored so
    /// far, and answers with that id and the stored signal. A signal already
    /// stored under that id (possible after a deletion) is replaced.
    pub fn add(&mut self, name: String, curve: Vec<u8>) -> (r: (usize, Signal))
        ensures
            final(self)@.dom().finite(),
            (r.0, final(self)@) == after_add(old(self)@, name@, curve@),
            r.0 == old(self)@.len(),
            final(self)@ == old(self)@.insert(r.0, (name@, curve@)),
            r.1@ == (name@, curve@),
    {
        let mut table = self.take_table();
        let next_id = table.len();
        let signal = Signal { name, curve };
        let stored = signal.duplicate();
        let _replaced = table.insert(next_id, stored);
        self.table = table;
        (next_id, signal)
    }

    /// The samples to replay for signal `id`, or not found.
    pub fn replay_curve(&self, id: usize) -> (r: Result<&Vec<u8>, StatusCode>)
        ensures
            match r {
                Ok(curve) => self@.contains_key(id) && curve@ == self@[id].1,
                Err(status) => !self@.contains_key(id) && status == StatusCode::NotFound,
            },
    {
        match self.table.get(id) {
            Some(signal) => Ok(&signal.curve),
            None => Err(StatusCode::NotFound),
        }
    }

    /// Renames signal `id` to `name`, keeping its samples; not found (and
    /// nothing changed) when no signal has that id.
    pub fn rename(&mut self, id: usize, name: String) -> (status: StatusCode)
        ensures
            final(self)@.dom().finite(),
            status == lookup_status(old(self)@, id),
            final(self)@ == after_rename(old(self)@, id, name@),
    {
        let mut table = self.take_table();
        let status = match table.get_mut(id) {
            Some(signal) => {
                signal.name = name;
                StatusCode::Success
            },
            None => StatusCode::NotFound,
        };
        self.table = table;
        status
    }

    /// Deletes signal `id`; not found (and nothing changed) when no signal
    /// has that id.
    pub fn delete(&mut self, id: usize) -> (status: StatusCode)
        ensures
            final(self)@.dom().finite(),
            status == lookup_status(old(self)@, id),
            final(self)@ == old(self)@.remove(id),
    {
        let mut table = self.take_table();
        let status = match table.remove(id) {
            Some(_) => StatusCode::Success,
            None => StatusCode::NotFound,
        };
        self.table = table;
        status
    }
}

/// The ids in use are exactly `0..n` for `n` stored signals, as they are
/// while signals have only been added.
pub open spec fn ids_dense(db: Map<usize, SignalView>) -> bool {
    &&& db.dom().finite()
    &&& forall|id: usize| #[trigger] db.contains_key(id) <==> id < db.len()
}

/// A signal that was added is found under the id that the addition answered
/// with, with the name and samples it was given.
pub proof fn lemma_added_signal_is_found(db: Map<usize, SignalView>, name: Seq<char>, curve: Seq<u8>)
    ensures
        ({
            let (id, after) = after_add(db, name, curve);
            &&& after.contains_key(id)
            &&& after[id] == (name, curve)
            &&& lookup_status(after, id) == StatusCode::Success
        }),
{
}

/// Adding leaves every other signal as it was.
pub proof fn lemma_add_keeps_other_signals(
    db: Map<usize, SignalView>,
    name: Seq<char>,
    curve: Seq<u8>,
    other: usize,
)
    requires
        db.contains_key(other),
        other != after_add(db, name, curve).0,
    ensures
        after_add(db, name, curve).1.contains_key(other),
        after_add(db, name, curve).1[other] == db[other],
{
}

/// While the ids in use are exactly `0..n`, adding takes the fresh id `n`,
/// replaces no signal, and keeps the ids exactly `0..n + 1`.
pub proof fn lemma_dense_add_takes_fresh_id(db: Map<usize, SignalView>, name: Seq<char>, curve: Seq<u8>)
    requires
        ids_dense(db),
        db.len() < usize::MAX,
    ensures
        !db.contains_key(after_add(db, name, curve).0),
        after_add(db, name, curve).1.len() == db.len() + 1,
        ids_dense(after_add(db, name, curve).1),
{
    let (id, after) = after_add(db, name, curve);
    assert(!db.contains_key(id));
    assert(after.dom() == db.dom().insert(id));
    assert(after.len() == db.len() + 1);
    assert forall|k: usize| #[trigger] after.contains_key(k) <==> k < after.len() by {
        if k == id {
        } else {
            assert(after.contains_key(k) == db.contains_key(k));
        }
    }
}

/// A rename answers not found exactly when the id is absent; otherwise the
/// signal takes the new name, keeps its samples, and every other signal
/// stays as it was.
pub proof fn lemma_rename_changes_only_the_name(db: Map<usize, SignalView>, id: usize, name: Seq<char>)
    ensures
        (lookup_status(db, id) == StatusCode::NotFound) == !db.contains_key(id),
        !db.contains_key(id) ==> after_rename(db, id, name) == db,
        db.contains_key(id) ==> {
            &&& after_rename(db, id, name).contains_key(id)
            &&& after_rename(db, id, name)[id] == (name, db[id].1)
        },
        after_rename(db, id, name).dom() == db.dom(),
        forall|k: usize|
            k != id && #[trigger] db.contains_key(k) ==> after_rename(db, id, name)[k] == db[k],
{
    if db.contains_key(id) {
        assert(db.dom().insert(id) =~= db.dom());
    }
}

/// After a deletion the id is no longer found, so deleting it again answers
/// not found; every other signal stays as it was.
pub proof fn lemma_deleted_signal_is_gone(db: Map<usize, SignalView>, id: usize)
    ensures
        lookup_status(db.remove(id), id) == StatusCode::NotFound,
        db.remove(id).remove(id) == db.remove(id),
        forall|k: usize|
            k != id && #[trigger] db.contains_key(k) ==> db.remove(id).contains_key(k) && db.remove(
                id,
            )[k] == db[k],
{
    assert(db.remove(id).remove(id) =~= db.remove(id));
}

/// Adding writes exactly one entry: the new id is the number of signals
/// stored before, the ids in use afterwards are those before plus the new
/// one, the new id holds the added signal, and every other id keeps its
/// signal. So the count grows by one, or stays where the id was taken.
pub proof fn lemma_add_writes_one_entry(db: Map<usize, SignalView>, name: Seq<char>, curve: Seq<u8>)
    requires
        db.dom().finite(),
        db.len() <= usize::MAX,
    ensures
        ({
            let (id, after) = after_add(db, name, curve);
            &&& id == db.len()
            &&& after.dom() == db.dom().insert(id)
            &&& after[id] == (name, curve)
            &&& forall|k: usize| k != id && #[trigger] db.contains_key(k) ==> after[k] == db[k]
            &&& after == db.insert(id, (name, curve))
            &&& after.dom().finite()
            &&& after.len() == if db.contains_key(id) {
                db.len()
            } else {
                db.len() + 1
            }
        }),
{
    let (id, after) = after_add(db, name, curve);
    assert(after.dom() =~= db.dom().insert(id));
}

} // verus!
