//! Properties of the store and the page that hold across several operations.
use vstd::prelude::*;

use crate::page::{items_html, page_html, PAGE_HEAD, PAGE_TAIL};
use crate::store::{
    after_delete, after_insert, can_insert, fresh_store, has_id, store_wf, without_id, StoreView,
};

verus! {

/// The store after inserting each of `texts`, in order.
pub open spec fn after_inserts(s: StoreView, texts: Seq<Seq<char>>) -> StoreView
    decreases texts.len(),
{
    if texts.len() == 0 {
        s
    } else {
        after_insert(after_inserts(s, texts.drop_last()), texts.last())
    }
}

proof fn lemma_insert_wf(s: StoreView, t: Seq<char>)
    requires
        store_wf(s),
        can_insert(s),
    ensures
        store_wf(after_insert(s, t)),
{
    let s2 = after_insert(s, t);
    assert forall|i: int| 0 <= i < s2.entries.len() implies 1 <= #[trigger] s2.entries[i].0
        < s2.next_id by {
        if i < s.entries.len() {
            assert(s2.entries[i] == s.entries[i]);
        }
    }
    assert forall|i: int, j: int| 0 <= i < j < s2.entries.len() implies #[trigger] s2.entries[i].0
        < #[trigger] s2.entries[j].0 by {
        assert(s2.entries[i] == s.entries[i]);
        if j < s.entries.len() {
            assert(s2.entries[j] == s.entries[j]);
        }
    }
}

/// Inserting text `t` adds exactly one entry: it carries `t` and an id that
/// no entry had before, and ids stay unique.
pub proof fn lemma_insert_then_list(s: StoreView, t: Seq<char>)
    requires
        store_wf(s),
        can_insert(s),
    ensures
        ({
            let s2 = after_insert(s, t);
            let id = s.next_id as u32;
            &&& store_wf(s2)
            &&& !has_id(s, id)
            &&& s2.entries.len() == s.entries.len() + 1
            &&& s2.entries.to_set() == s.entries.to_set().insert((id, t))
        }),
{
    lemma_insert_wf(s, t);
    let s2 = after_insert(s, t);
    let id = s.next_id as u32;
    assert(!has_id(s, id)) by {
        if has_id(s, id) {
            let i = choose|i: int| 0 <= i < s.entries.len() && #[trigger] s.entries[i].0 == id;
            assert(s.entries[i].0 < s.next_id);
        }
    }
    assert(s2.entries.to_set() =~= s.entries.to_set().insert((id, t))) by {
        assert forall|e| s2.entries.to_set().contains(e) implies s.entries.to_set().insert(
            (id, t),
        ).contains(e) by {
            let i = choose|i: int| 0 <= i < s2.entries.len() && s2.entries[i] == e;
            if i < s.entries.len() {
                assert(s.entries[i] == e);
            }
        }
        assert forall|e| s.entries.to_set().insert((id, t)).contains(e) implies s2.entries.to_set().contains(
            e,
        ) by {
            if e == (id, t) {
                assert(s2.entries[s.entries.len() as int] == e);
            } else {
                let i = choose|i: int| 0 <= i < s.entries.len() && s.entries[i] == e;
                assert(s2.entries[i] == e);
            }
        }
    }
}

proof fn lemma_without_absent(es: Seq<(u32, Seq<char>)>, id: u32)
    requires
        forall|i: int| 0 <= i < es.len() ==> #[trigger] es[i].0 != id,
    ensures
        without_id(es, id) == es,
    decreases es.len(),
{
    if es.len() > 0 {
        assert forall|i: int| 0 <= i < es.drop_last().len() implies #[trigger] es.drop_last()[i].0
            != id by {
            assert(es.drop_last()[i] == es[i]);
        }
        lemma_without_absent(es.drop_last(), id);
        assert(es[es.len() - 1] == es.last());
        assert(es.drop_last().push(es.last()) =~= es);
    }
}

/// Deleting an id that no entry has leaves the store as it was.
pub proof fn lemma_delete_absent(s: StoreView, id: u32)
    requires
        store_wf(s),
        !has_id(s, id),
    ensures
        after_delete(s, id) == s,
{
    lemma_without_absent(s.entries, id);
}

/// Inserting A then B into an empty store and deleting A's id leaves exactly
/// B, under the id the store gave it.
pub proof fn lemma_delete_then_list(s: StoreView, a: Seq<char>, b: Seq<char>)
    requires
        store_wf(s),
        s.entries.len() == 0,
        s.next_id + 1 <= u32::MAX,
    ensures
        ({
            let id_a = s.next_id as u32;
            let id_b = (s.next_id + 1) as u32;
            after_delete(after_insert(after_insert(s, a), b), id_a).entries == seq![(id_b, b)]
        }),
{
    let id_a = s.next_id as u32;
    let id_b = (s.next_id + 1) as u32;
    let es = after_insert(after_insert(s, a), b).entries;
    assert(es.drop_last() =~= seq![(id_a, a)]);
    assert(es.drop_last().drop_last() =~= Seq::<(u32, Seq<char>)>::empty());
    assert(without_id(es.drop_last().drop_last(), id_a) =~= Seq::<(u32, Seq<char>)>::empty());
    assert(without_id(es.drop_last(), id_a) =~= Seq::<(u32, Seq<char>)>::empty());
    assert(without_id(es, id_a) =~= seq![(id_b, b)]);
}

/// A fresh store lists nothing, and its page is the page with no items.
pub proof fn lemma_fresh_store_page()
    ensures
        store_wf(fresh_store()),
        fresh_store().entries.len() == 0,
        page_html(fresh_store().entries) == PAGE_HEAD@ + PAGE_TAIL@,
{
    assert(items_html(fresh_store().entries) =~= Seq::<char>::empty());
    assert(PAGE_HEAD@ + Seq::<char>::empty() =~= PAGE_HEAD@);
}

/// N inserts, in whichever order the store takes them, each find an id left
/// while ids remain, and add N entries that carry the N texts under N
/// distinct ids that no earlier entry had; earlier entries stay.
pub proof fn lemma_inserts_distinct_ids(s: StoreView, texts: Seq<Seq<char>>)
    requires
        store_wf(s),
        s.next_id + texts.len() <= u32::MAX + 1,
    ensures
        ({
            let s2 = after_inserts(s, texts);
            let n = s.entries.len();
            &&& store_wf(s2)
            &&& s2.next_id == s.next_id + texts.len()
            &&& s2.entries.len() == n + texts.len()
            &&& s2.entries.take(n as int) == s.entries
            &&& forall|k: int| 0 <= k < texts.len() ==> (#[trigger] s2.entries[n + k]).1 == texts[k]
                && !has_id(s, s2.entries[n + k].0)
        }),
        forall|k: int| 0 <= k < texts.len() ==> can_insert(#[trigger] after_inserts(s, texts.take(k))),
    decreases texts.len(),
{
    let n = s.entries.len();
    if texts.len() == 0 {
        assert(s.entries.take(n as int) =~= s.entries);
    } else {
        let init = texts.drop_last();
        lemma_inserts_distinct_ids(s, init);
        let s1 = after_inserts(s, init);
        lemma_insert_wf(s1, texts.last());
        let s2 = after_inserts(s, texts);
        assert(s2.entries.take(n as int) =~= s1.entries.take(n as int));
        assert forall|k: int| 0 <= k < texts.len() implies (#[trigger] s2.entries[n + k]).1
            == texts[k] && !has_id(s, s2.entries[n + k].0) by {
            if k < init.len() {
                assert(s2.entries[n + k] == s1.entries[n + k]);
                assert(init[k] == texts[k]);
            } else {
                assert(s2.entries[n + k] == (s1.next_id as u32, texts.last()));
                if has_id(s, s1.next_id as u32) {
                    let i = choose|i: int|
                        0 <= i < s.entries.len() && #[trigger] s.entries[i].0 == s1.next_id as u32;
                    assert(s.entries[i].0 < s.next_id);
                }
            }
        }
        assert forall|k: int| 0 <= k < texts.len() implies can_insert(
            #[trigger] after_inserts(s, texts.take(k)),
        ) by {
            if k < init.len() {
                assert(texts.take(k) =~= init.take(k));
            } else {
                assert(texts.take(k) =~= init);
            }
        }
    }
}

} // verus!
