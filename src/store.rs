use vstd::prelude::*;

use crate::entry::{entries_view, TodoEntry};

verus! {

/// Why the store could not carry out a command: the server's fault,
/// answered with a 5xx status.
#[derive(Debug, Clone, Copy, PartialEq, Eq, Structural)]
pub enum StoreError {
    /// No connection could be had from the pool.
    Pool,
    /// The store rejected or failed a statement.
    Query,
}

/// The abstract state of a store: its entries in the order it lists them, and
/// the id it will assign next.
pub ghost struct StoreView {
    pub entries: Seq<(u32, Seq<char>)>,
    pub next_id: nat,
}

/// The ids are positive, below the next id, and strictly increasing in list
/// order, so no two entries share one.
pub open spec fn store_wf(s: StoreView) -> bool {
    &&& s.next_id >= 1
    &&& forall|i: int| 0 <= i < s.entries.len() ==> 1 <= #[trigger] s.entries[i].0 < s.next_id
    &&& forall|i: int, j: int|
        0 <= i < j < s.entries.len() ==> #[trigger] s.entries[i].0 < #[trigger] s.entries[j].0
}

/// A store that was just created: no entries, ids start at 1.
pub open spec fn fresh_store() -> StoreView {
    StoreView { entries: seq![], next_id: 1 }
}

/// Whether an id is left to assign.
pub open spec fn can_insert(s: StoreView) -> bool {
    s.next_id <= u32::MAX
}

/// Whether some entry has this id.
pub open spec fn has_id(s: StoreView, id: u32) -> bool {
    exists|i: int| 0 <= i < s.entries.len() && #[trigger] s.entries[i].0 == id
}

/// The store after appending an entry with text `t` under the next id.
pub open spec fn after_insert(s: StoreView, t: Seq<char>) -> StoreView {
    StoreView { entries: s.entries.push((s.next_id as u32, t)), next_id: s.next_id + 1 }
}

/// The entries other than the one with this id, in order.
pub open spec fn without_id(es: Seq<(u32, Seq<char>)>, id: u32) -> Seq<(u32, Seq<char>)>
    decreases es.len(),
{
    if es.len() == 0 {
        seq![]
    } else {
        let rest = without_id(es.drop_last(), id);
        if es.last().0 == id {
            rest
        } else {
            rest.push(es.last())
        }
    }
}

/// The store after removing the entry with this id, if there is one.
pub open spec fn after_delete(s: StoreView, id: u32) -> StoreView {
    StoreView { entries: without_id(s.entries, id), next_id: s.next_id }
}

/// A store held in memory, with the same behaviour as the database: ids are
/// assigned by the store, increasing, and never reused.
pub struct TodoStore {
    entries: Vec<TodoEntry>,
    next_id: u32,
    exhausted: bool,
}

impl View for TodoStore {
    type V = StoreView;

    closed spec fn view(&self) -> StoreView {
        StoreView {
            entries: entries_view(self.entries@),
            next_id: if self.exhausted {
                u32::MAX as nat + 1
            } else {
                self.next_id as nat
            },
        }
    }
}

impl TodoStore {
    /// The store is in a state that its model allows.
    pub closed spec fn wf(&self) -> bool {
        &&& store_wf(self@)
        &&& self.exhausted ==> self.next_id == u32::MAX
    }

    /// A well-formed store has a well-formed model: ids positive, unique and
    /// below the next id.
    pub proof fn lemma_wf_view(&self)
        requires
            self.wf(),
        ensures
            store_wf(self@),
    {
    }

    /// An empty store.
    pub fn new() -> (r: TodoStore)
        ensures
            r.wf(),
            r@ == fresh_store(),
    {
        let r = TodoStore { entries: Vec::new(), next_id: 1, exhausted: false };
        assert(entries_view(r.entries@) =~= seq![]);
        r
    }

    /// All entries, in the store's order.
    pub fn list_entries(&self) -> (r: Vec<TodoEntry>)
        ensures
            entries_view(r@) == self@.entries,
    {
        let mut r: Vec<TodoEntry> = Vec::new();
        let mut i: usize = 0;
        while i < self.entries.len()
            invariant
                i <= self.entries@.len(),
                r@.len() == i,
                entries_view(r@) == entries_view(self.entries@.take(i as int)),
            decreases self.entries@.len() - i,
        {
            let e = self.entries[i].duplicate();
            let ghost before = r@;
            r.push(e);
            proof {
                let want = entries_view(self.entries@.take(i + 1));
                assert forall|k: int| 0 <= k <= i implies entries_view(r@)[k] == want[k] by {
                    if k < i {
                        assert(r@[k] == before[k]);
                        assert(entries_view(before)[k] == entries_view(
                            self.entries@.take(i as int),
                        )[k]);
                    }
                }
                assert(entries_view(r@) =~= want);
            }
            i = i + 1;
        }
        assert(self.entries@.take(self.entries@.len() as int) =~= self.entries@);
        r
    }

    /// Appends an entry with `text` under the next id. Fails, changing
    /// nothing, only when every id has been used.
    pub fn insert_entry(&mut self, text: String) -> (r: Result<(), StoreError>)
        requires
            old(self).wf(),
        ensures
            final(self).wf(),
            can_insert(old(self)@) ==> r is Ok && final(self)@ == after_insert(old(self)@, text@),
            !can_insert(old(self)@) ==> r == Err::<(), StoreError>(StoreError::Query) && final(self)@
                == old(self)@,
    {
        if self.exhausted {
            return Err(StoreError::Query);
        }
        let id = self.next_id;
        let ghost before = self@;
        self.entries.push(TodoEntry::new(id, text));
        if id == u32::MAX {
            self.exhausted = true;
        } else {
            self.next_id = id + 1;
        }
        proof {
            assert(self@.entries =~= before.entries.push((id, text@)));
        }
        Ok(())
    }

    /// Removes the entry with this id. An id that no entry has is no error:
    /// the store stays as it was.
    pub fn delete_entry(&mut self, id: u32) -> (r: Result<(), StoreError>)
        requires
            old(self).wf(),
        ensures
            final(self).wf(),
            r is Ok,
            final(self)@ == after_delete(old(self)@, id),
    {
        let ghost before = self@;
        let mut kept: Vec<TodoEntry> = Vec::new();
        let mut i: usize = 0;
        while i < self.entries.len()
            invariant
                i <= self.entries@.len(),
                before.entries == entries_view(self.entries@),
                entries_view(kept@) == without_id(before.entries.take(i as int), id),
            decreases self.entries@.len() - i,
        {
            proof {
                assert(before.entries.take(i + 1).drop_last() =~= before.entries.take(i as int));
            }
            if self.entries[i].id != id {
                kept.push(self.entries[i].duplicate());
                proof {
                    assert(entries_view(kept@) =~= without_id(before.entries.take(i + 1), id));
                }
            }
            i = i + 1;
        }
        assert(before.entries.take(before.entries.len() as int) =~= before.entries);
        self.entries = kept;
        proof {
            lemma_without_id_wf(before, id);
        }
        Ok(())
    }
}

/// Removing the entries with an id keeps only entries of the input, each with
/// another id, and no more of them than there were.
proof fn lemma_without_id_sub(es: Seq<(u32, Seq<char>)>, id: u32)
    ensures
        forall|k: int|
            0 <= k < without_id(es, id).len() ==> exists|i: int|
                0 <= i < es.len() && #[trigger] without_id(es, id)[k] == es[i] && es[i].0 != id,
        without_id(es, id).len() <= es.len(),
    decreases es.len(),
{
    if es.len() > 0 {
        lemma_without_id_sub(es.drop_last(), id);
        let rest = without_id(es.drop_last(), id);
        assert forall|k: int| 0 <= k < without_id(es, id).len() implies exists|i: int|
            0 <= i < es.len() && #[trigger] without_id(es, id)[k] == es[i] && es[i].0 != id by {
            if k < rest.len() {
                let i = choose|i: int|
                    0 <= i < es.drop_last().len() && #[trigger] rest[k] == es.drop_last()[i]
                        && es.drop_last()[i].0 != id;
                assert(es[i] == es.drop_last()[i]);
            } else {
                assert(es[es.len() - 1] == es.last());
            }
        }
    }
}

/// Removing the entry with an id keeps a store well formed.
pub proof fn lemma_without_id_wf(s: StoreView, id: u32)
    requires
        store_wf(s),
    ensures
        store_wf(after_delete(s, id)),
    decreases s.entries.len(),
{
    if s.entries.len() > 0 {
        let smaller = StoreView { entries: s.entries.drop_last(), next_id: s.next_id };
        lemma_without_id_wf(smaller, id);
        lemma_without_id_sub(s.entries.drop_last(), id);
        let rest = without_id(s.entries.drop_last(), id);
        let last = s.entries.last();
        if last.0 != id {
            assert forall|k: int| 0 <= k < rest.len() implies #[trigger] rest[k].0 < last.0 by {
                let i = choose|i: int|
                    0 <= i < s.entries.drop_last().len() && #[trigger] rest[k]
                        == s.entries.drop_last()[i] && s.entries.drop_last()[i].0 != id;
                assert(s.entries[i] == s.entries.drop_last()[i]);
                assert(s.entries[i].0 < s.entries[s.entries.len() - 1].0);
            }
            assert(s.entries[s.entries.len() - 1] == last);
            let all = rest.push(last);
            assert forall|i: int, j: int| 0 <= i < j < all.len() implies #[trigger] all[i].0
                < #[trigger] all[j].0 by {
                if j == all.len() - 1 {
                    assert(all[i] == rest[i]);
                    assert(all[j] == last);
                    assert(rest[i].0 < last.0);
                } else {
                    assert(all[i] == rest[i] && all[j] == rest[j]);
                    assert(after_delete(smaller, id).entries == rest);
                    assert(rest[i].0 < rest[j].0);
                }
            }
        }
    }
}

} // verus!
