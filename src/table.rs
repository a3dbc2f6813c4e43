//! The table of in-flight transactions of one session.
use vstd::prelude::*;

verus! {

/// What the table keeps of an admitted request.
#[derive(Clone, Copy, Debug, PartialEq, Eq, Structural)]
pub struct RequestSummary {
    pub lun: u8,
    pub opcode: u8,
    /// First logical block of the transfer.
    pub lba: u64,
    /// Number of logical blocks to transfer.
    pub blocks: u32,
    /// Bytes of guest memory the transfer covers.
    pub data_len: u32,
}

/// One in-flight transaction. Requests answered at dispatch never enter
/// the table, so every entry is awaiting its disk operation.
#[derive(Clone, Copy, Debug, PartialEq, Eq, Structural)]
pub struct Entry {
    pub transaction_id: u64,
    pub request: RequestSummary,
    /// Time at which the request was admitted, as given by the caller.
    pub submitted: u64,
}

/// Why a transaction was not admitted.
#[derive(Clone, Copy, Debug, PartialEq, Eq, Structural)]
pub enum InsertError {
    /// A transaction with the same id is still in flight.
    DuplicateTransaction,
    /// The table was drained at teardown and admits nothing more.
    Closed,
}

/// Mathematical value of a transaction table.
pub ghost struct TableModel {
    pub entries: Seq<Entry>,
    pub closed: bool,
}

/// No two entries share a transaction id.
pub open spec fn ids_unique(s: Seq<Entry>) -> bool {
    forall|i: int, j: int|
        0 <= i < s.len() && 0 <= j < s.len() && i != j ==> #[trigger] s[i].transaction_id
            != #[trigger] s[j].transaction_id
}

/// Some entry carries `id`.
pub open spec fn in_flight(s: Seq<Entry>, id: u64) -> bool {
    exists|i: int| 0 <= i < s.len() && #[trigger] s[i].transaction_id == id
}

/// Position of the entry that carries `id`, if any.
pub open spec fn find(s: Seq<Entry>, id: u64) -> Option<int> {
    if in_flight(s, id) {
        Some(choose|i: int| 0 <= i < s.len() && #[trigger] s[i].transaction_id == id)
    } else {
        None
    }
}

/// The table after inserting `id`, and the outcome.
pub open spec fn spec_insert(t: TableModel, id: u64, request: RequestSummary, now: u64) -> (
    TableModel,
    Result<(), InsertError>,
) {
    if t.closed {
        (t, Err(InsertError::Closed))
    } else if in_flight(t.entries, id) {
        (t, Err(InsertError::DuplicateTransaction))
    } else {
        (
            TableModel {
                entries: t.entries.push(Entry { transaction_id: id, request, submitted: now }),
                ..t
            },
            Ok(()),
        )
    }
}

/// The table after retiring `id`, and the entry that left it.
pub open spec fn spec_retire(t: TableModel, id: u64) -> (TableModel, Option<Entry>) {
    match find(t.entries, id) {
        Some(i) => (TableModel { entries: t.entries.remove(i), ..t }, Some(t.entries[i])),
        None => (t, None),
    }
}

/// The table after teardown.
pub open spec fn spec_drain(t: TableModel) -> TableModel {
    TableModel { entries: Seq::empty(), closed: true }
}

proof fn lemma_retire_keeps(t: TableModel, id: u64, other: u64)
    requires
        ids_unique(t.entries),
        other != id,
        in_flight(t.entries, id),
    ensures
        ids_unique(spec_retire(t, other).0.entries),
        in_flight(spec_retire(t, other).0.entries, id),
        spec_retire(spec_retire(t, other).0, id).1 == spec_retire(t, id).1,
{
    let s = t.entries;
    let j = choose|j: int| 0 <= j < s.len() && #[trigger] s[j].transaction_id == id;
    match find(s, other) {
        Some(i) => {
            let r = s.remove(i);
            assert(i != j);
            let jr = if j < i { j } else { j - 1 };
            assert(r[jr] == s[j]);
            assert(in_flight(r, id));
            assert forall|a: int, b: int|
                0 <= a < r.len() && 0 <= b < r.len() && a != b implies #[trigger] r[a].transaction_id
                != #[trigger] r[b].transaction_id by {
                let oa = if a < i { a } else { a + 1 };
                let ob = if b < i { b } else { b + 1 };
                assert(r[a] == s[oa]);
                assert(r[b] == s[ob]);
            }
            let c = choose|c: int| 0 <= c < r.len() && #[trigger] r[c].transaction_id == id;
            assert(c == jr);
            let c0 = choose|c: int| 0 <= c < s.len() && #[trigger] s[c].transaction_id == id;
            assert(c0 == j);
        },
        None => {},
    }
}

/// Every inserted transaction is answered at most once: retiring its id hands
/// back exactly the entry that was inserted, even after any other
/// transaction was retired first; a second retire of the same id hands back
/// nothing; and once the table is drained at teardown, nothing is handed back
/// for it.
pub proof fn lemma_correlation(t: TableModel, id: u64, request: RequestSummary, now: u64, other: u64)
    requires
        ids_unique(t.entries),
        spec_insert(t, id, request, now).1 is Ok,
        other != id,
    ensures
        ({
            let t1 = spec_insert(t, id, request, now).0;
            let e = Entry { transaction_id: id, request, submitted: now };
            &&& spec_retire(t1, id).1 == Some(e)
            &&& spec_retire(spec_retire(t1, id).0, id).1 is None
            &&& spec_retire(spec_retire(t1, other).0, id).1 == Some(e)
            &&& spec_retire(spec_drain(t1), id).1 is None
        }),
{
    let s = t.entries.push(Entry { transaction_id: id, request, submitted: now });
    let t1 = spec_insert(t, id, request, now).0;
    assert(t1.entries == s);
    let last = s.len() - 1;
    assert(s[last].transaction_id == id);
    assert(in_flight(s, id));
    assert(ids_unique(s)) by {
        assert forall|i: int, j: int|
            0 <= i < s.len() && 0 <= j < s.len() && i != j implies #[trigger] s[i].transaction_id
            != #[trigger] s[j].transaction_id by {
            if i == last {
                assert(t.entries[j] == s[j]);
            } else if j == last {
                assert(t.entries[i] == s[i]);
            } else {
                assert(t.entries[i] == s[i]);
                assert(t.entries[j] == s[j]);
            }
        }
    }
    let c = choose|c: int| 0 <= c < s.len() && #[trigger] s[c].transaction_id == id;
    assert(c == last);
    let r = s.remove(last);
    assert(!in_flight(r, id)) by {
        if in_flight(r, id) {
            let k = choose|k: int| 0 <= k < r.len() && #[trigger] r[k].transaction_id == id;
            assert(r[k] == s[k]);
        }
    }
    lemma_retire_keeps(t1, id, other);
    assert(!in_flight(spec_drain(t1).entries, id));
}

/// The in-flight transactions of one session, keyed by transaction id.
pub struct TransactionTable {
    entries: Vec<Entry>,
    closed: bool,
}

impl View for TransactionTable {
    type V = TableModel;

    closed spec fn view(&self) -> TableModel {
        TableModel { entries: self.entries@, closed: self.closed }
    }
}

impl TransactionTable {
    /// The table's invariant: transaction ids are unique.
    pub open spec fn wf(&self) -> bool {
        ids_unique(self@.entries)
    }

    /// An empty, open table.
    pub fn new() -> (r: Self)
        ensures
            r.wf(),
            r@ == (TableModel { entries: Seq::empty(), closed: false }),
    {
        let r = TransactionTable { entries: Vec::new(), closed: false };
        assert(r@.entries =~= Seq::<Entry>::empty());
        r
    }

    /// Number of transactions in flight.
    pub fn len(&self) -> (r: usize)
        ensures
            r == self@.entries.len(),
    {
        self.entries.len()
    }

    /// Whether the table was drained.
    pub fn is_closed(&self) -> (r: bool)
        ensures
            r == self@.closed,
    {
        self.closed
    }

    /// Position of the entry for `id`.
    fn position(&self, id: u64) -> (r: Option<usize>)
        requires
            self.wf(),
        ensures
            match r {
                Some(i) => find(self@.entries, id) == Some(i as int),
                None => find(self@.entries, id) is None,
            },
    {
        let mut i: usize = 0;
        while i < self.entries.len()
            invariant
                i <= self.entries@.len(),
                self.wf(),
                forall|k: int| 0 <= k < i ==> #[trigger] self.entries@[k].transaction_id != id,
            decreases self.entries@.len() - i,
        {
            if self.entries[i].transaction_id == id {
                let ghost s = self@.entries;
                assert(in_flight(s, id));
                let ghost c = choose|j: int| 0 <= j < s.len() && #[trigger] s[j].transaction_id == id;
                assert(c == i);
                return Some(i);
            }
            i = i + 1;
        }
        None
    }

    /// Whether a transaction with `id` is in flight.
    pub fn contains(&self, id: u64) -> (r: bool)
        requires
            self.wf(),
        ensures
            r == in_flight(self@.entries, id),
    {
        self.position(id).is_some()
    }

    /// Admits `id` with its request, stamped with the time `now`.
    pub fn insert(&mut self, id: u64, request: RequestSummary, now: u64) -> (r: Result<(), InsertError>)
        requires
            old(self).wf(),
        ensures
            final(self).wf(),
            (final(self)@, r) == spec_insert(old(self)@, id, request, now),
    {
        if self.closed {
            return Err(InsertError::Closed);
        }
        if self.position(id).is_some() {
            return Err(InsertError::DuplicateTransaction);
        }
        self.entries.push(Entry { transaction_id: id, request, submitted: now });
        proof {
            let s = self@.entries;
            assert forall|i: int, j: int|
                0 <= i < s.len() && 0 <= j < s.len() && i != j implies #[trigger] s[i].transaction_id
                != #[trigger] s[j].transaction_id by {
                if i == s.len() - 1 {
                    assert(old(self)@.entries[j] == s[j]);
                } else if j == s.len() - 1 {
                    assert(old(self)@.entries[i] == s[i]);
                }
            }
        }
        Ok(())
    }

    /// Removes the entry for `id` and hands it back; `None` where no such
    /// transaction is in flight.
    pub fn retire(&mut self, id: u64) -> (r: Option<Entry>)
        requires
            old(self).wf(),
        ensures
            final(self).wf(),
            (final(self)@, r) == spec_retire(old(self)@, id),
    {
        match self.position(id) {
            Some(i) => {
                let e = self.entries.remove(i);
                proof {
                    let s = self@.entries;
                    let o = old(self)@.entries;
                    assert forall|a: int, b: int|
                        0 <= a < s.len() && 0 <= b < s.len() && a != b implies #[trigger] s[a].transaction_id
                        != #[trigger] s[b].transaction_id by {
                        let oa = if a < i { a } else { a + 1 };
                        let ob = if b < i { b } else { b + 1 };
                        assert(s[a] == o[oa]);
                        assert(s[b] == o[ob]);
                    }
                }
                Some(e)
            },
            None => None,
        }
    }

    /// Empties the table for teardown, handing back every entry still in
    /// flight; the table admits nothing afterwards.
    pub fn drain(&mut self) -> (r: Vec<Entry>)
        requires
            old(self).wf(),
        ensures
            final(self).wf(),
            final(self)@ == spec_drain(old(self)@),
            r@ == old(self)@.entries,
    {
        let mut r: Vec<Entry> = Vec::new();
        r.append(&mut self.entries);
        assert(r@ =~= old(self)@.entries);
        self.closed = true;
        assert(self@.entries =~= Seq::<Entry>::empty());
        r
    }
}

} // verus!
