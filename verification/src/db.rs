//! The mapping store: a table of records keyed by a store-assigned integer
//! id, held in ascending id order, with a fresh-id counter. All CRUD logic
//! of the service goes through it.

use vstd::prelude::*;

use crate::models::{Url, UrlV};

verus! {

/// Mathematical image of the store: the fresh-id counter and the records
/// in the order they are held.
pub ghost struct StoreV {
    pub next_id: int,
    pub records: Seq<UrlV>,
}

/// The mapping store. Records are kept sorted by ascending id, so the
/// first match of a path scan is the lowest-id match.
pub struct Store {
    pub next_id: i64,
    pub records: Vec<Url>,
}

/// The records of a vector of mappings, as their mathematical images.
pub open spec fn views(s: Seq<Url>) -> Seq<UrlV> {
    Seq::new(s.len(), |i: int| s[i]@)
}

impl View for Store {
    type V = StoreV;

    open spec fn view(&self) -> StoreV {
        StoreV { next_id: self.next_id as int, records: views(self.records@) }
    }
}

/// A single record as the store may hold it: a positive id below the fresh
/// counter, a non-negative hit count that fits the counter's width, and an
/// update time no earlier than the creation time.
pub open spec fn valid_record(u: UrlV, next_id: int) -> bool {
    &&& 0 < u.id < next_id
    &&& 0 <= u.hits <= u64::MAX
    &&& i64::MIN <= u.created_at <= u.updated_at <= i64::MAX
}

/// Well-formedness of the store: every record valid against the fresh-id
/// counter, and ids strictly ascending (hence unique, never reused).
pub open spec fn store_wf(s: StoreV) -> bool {
    &&& 1 <= s.next_id <= i64::MAX
    &&& forall|i: int| 0 <= i < s.records.len() ==> valid_record(#[trigger] s.records[i], s.next_id)
    &&& forall|i: int, j: int|
        0 <= i < j < s.records.len() ==> s.records[i].id < s.records[j].id
}

impl Store {
    /// Well-formedness of this store's state.
    pub open spec fn wf(&self) -> bool {
        store_wf(self@)
    }
}

/// Open a fresh, empty store.
pub fn new() -> (r: Store)
    ensures
        r.wf(),
        r@.records == Seq::<UrlV>::empty(),
        r@.next_id == 1,
{
    let r = Store { next_id: 1, records: Vec::new() };
    proof {
        assert(r@.records =~= Seq::<UrlV>::empty());
    }
    r
}

/// The record resolved for a path: the first match in store order, which
/// under well-formedness is the match with the lowest id.
pub open spec fn find_by_path(records: Seq<UrlV>, path: Seq<char>) -> Option<UrlV>
    decreases records.len(),
{
    if records.len() == 0 {
        None
    } else if records[0].path == path {
        Some(records[0])
    } else {
        find_by_path(records.subrange(1, records.len() as int), path)
    }
}

/// Resolving a path skips any prefix in which no record matches.
pub proof fn lemma_find_skips_prefix(records: Seq<UrlV>, path: Seq<char>, i: int)
    requires
        0 <= i <= records.len(),
        forall|j: int| 0 <= j < i ==> (#[trigger] records[j]).path != path,
    ensures
        find_by_path(records, path) == find_by_path(
            records.subrange(i, records.len() as int),
            path,
        ),
    decreases i,
{
    if i == 0 {
        assert(records.subrange(0, records.len() as int) =~= records);
    } else {
        let rest = records.subrange(1, records.len() as int);
        lemma_find_skips_prefix(rest, path, i - 1);
        assert(rest.subrange(i - 1, rest.len() as int) =~= records.subrange(
            i,
            records.len() as int,
        ));
    }
}

/// What a successful resolution returns is one of the records, it matches
/// the path, and no earlier record matches.
pub proof fn lemma_find_characterized(records: Seq<UrlV>, path: Seq<char>)
    ensures
        find_by_path(records, path) is None ==> forall|i: int|
            0 <= i < records.len() ==> (#[trigger] records[i]).path != path,
        find_by_path(records, path) matches Some(u) ==> exists|i: int|
            {
                &&& 0 <= i < records.len()
                &&& #[trigger] records[i] == u
                &&& records[i].path == path
                &&& forall|j: int| 0 <= j < i ==> (#[trigger] records[j]).path != path
            },
    decreases records.len(),
{
    if records.len() > 0 && records[0].path != path {
        let rest = records.subrange(1, records.len() as int);
        lemma_find_characterized(rest, path);
        assert(forall|j: int| 0 <= j < rest.len() ==> #[trigger] rest[j] == records[j + 1]);
        match find_by_path(records, path) {
            Some(u) => {
                let i = choose|i: int|
                    {
                        &&& 0 <= i < rest.len()
                        &&& #[trigger] rest[i] == u
                        &&& rest[i].path == path
                        &&& forall|j: int| 0 <= j < i ==> (#[trigger] rest[j]).path != path
                    };
                assert(records[i + 1] == u);
                assert forall|j: int| 0 <= j < i + 1 implies (#[trigger] records[j]).path
                    != path by {
                    if j > 0 {
                        assert(rest[j - 1] == records[j]);
                    }
                }
            },
            None => {
                assert forall|i: int| 0 <= i < records.len() implies (#[trigger] records[i]).path
                    != path by {
                    if i > 0 {
                        assert(rest[i - 1] == records[i]);
                    }
                }
            },
        }
    }
}

/// The record a fresh insertion adds: the caller's mutable fields under a
/// newly assigned id, zero hits, and both timestamps set to the insertion
/// instant.
pub open spec fn with_identity(fields: UrlV, id: int, now: int) -> UrlV {
    UrlV { id, hits: 0, created_at: now, updated_at: now, ..fields }
}

/// How an insertion at instant `now` relates the store's states: if a fresh
/// id is available the new record is appended and returned, otherwise
/// nothing changes.
pub open spec fn create_effect(
    pre: StoreV,
    post: StoreV,
    fields: UrlV,
    now: int,
    created: Option<UrlV>,
) -> bool {
    match created {
        Some(u) => {
            &&& pre.next_id < i64::MAX
            &&& u == with_identity(fields, pre.next_id, now)
            &&& post.records == pre.records.push(u)
            &&& post.next_id == pre.next_id + 1
        },
        None => {
            &&& pre.next_id == i64::MAX
            &&& post == pre
        },
    }
}

/// A record after a full-field update at instant `now`: the mutable fields
/// replaced, identity and hit count kept, and the update time advanced to
/// `now` (never moved before the creation time).
pub open spec fn replaced(orig: UrlV, fields: UrlV, now: int) -> UrlV {
    UrlV {
        id: orig.id,
        hits: orig.hits,
        created_at: orig.created_at,
        updated_at: if now >= orig.created_at {
            now
        } else {
            orig.created_at
        },
        path: fields.path,
        title: fields.title,
        body: fields.body,
        icon: fields.icon,
        redirect: fields.redirect,
    }
}

/// How an update of record `id` at instant `now` relates the store's
/// states: found iff a record carries the id, in which case exactly that
/// record is replaced; otherwise nothing changes.
pub open spec fn update_effect(
    pre: StoreV,
    post: StoreV,
    id: int,
    fields: UrlV,
    now: int,
    found: bool,
) -> bool {
    &&& post.next_id == pre.next_id
    &&& (found <==> exists|i: int| 0 <= i < pre.records.len() && (#[trigger] pre.records[i]).id
        == id)
    &&& (!found ==> post == pre)
    &&& forall|i: int|
        0 <= i < pre.records.len() && (#[trigger] pre.records[i]).id == id ==> post.records
            == pre.records.update(i, replaced(pre.records[i], fields, now))
}

/// A record after one counted hit; the counter saturates at its width
/// rather than wrap.
pub open spec fn bump_hits(u: UrlV) -> UrlV {
    UrlV {
        hits: if u.hits < u64::MAX {
            u.hits + 1
        } else {
            u.hits
        },
        ..u
    }
}

/// How a hit increment of record `id` relates the store's states: exactly
/// the carrying record has its counter bumped; an absent id changes
/// nothing.
pub open spec fn incr_effect(pre: StoreV, post: StoreV, id: int) -> bool {
    &&& post.next_id == pre.next_id
    &&& ((forall|i: int| 0 <= i < pre.records.len() ==> (#[trigger] pre.records[i]).id != id)
        ==> post == pre)
    &&& forall|i: int|
        0 <= i < pre.records.len() && (#[trigger] pre.records[i]).id == id ==> post.records
            == pre.records.update(i, bump_hits(pre.records[i]))
}

/// The store's records after a deletion: every record carrying the id is
/// gone, the rest keep their order.
pub open spec fn spec_delete(records: Seq<UrlV>, id: int) -> Seq<UrlV> {
    records.filter(|u: UrlV| u.id != id)
}

/// One unfolding of a deletion: the last record survives exactly when it
/// does not carry the deleted id.
pub proof fn lemma_delete_step(records: Seq<UrlV>, id: int)
    requires
        records.len() > 0,
    ensures
        spec_delete(records, id) == (if records.last().id == id {
            spec_delete(records.drop_last(), id)
        } else {
            spec_delete(records.drop_last(), id).push(records.last())
        }),
{
    reveal(Seq::filter);
}

/// Deleting an id that no record carries changes nothing.
pub proof fn lemma_delete_absent(records: Seq<UrlV>, id: int)
    requires
        forall|i: int| 0 <= i < records.len() ==> (#[trigger] records[i]).id != id,
    ensures
        spec_delete(records, id) == records,
    decreases records.len(),
{
    reveal(Seq::filter);
    if records.len() == 0 {
        assert(spec_delete(records, id) =~= records);
    } else {
        lemma_delete_absent(records.drop_last(), id);
        lemma_delete_step(records, id);
        assert(spec_delete(records, id) =~= records);
    }
}

/// No record of the deleted id survives a deletion.
pub proof fn lemma_delete_removes_id(records: Seq<UrlV>, id: int)
    ensures
        forall|i: int|
            0 <= i < spec_delete(records, id).len() ==> (#[trigger] spec_delete(records, id)[i]).id
                != id,
    decreases records.len(),
{
    reveal(Seq::filter);
    if records.len() > 0 {
        lemma_delete_removes_id(records.drop_last(), id);
        lemma_delete_step(records, id);
    }
}

/// Round trip of a creation: the record a successful insertion returns is
/// the last record of the store afterwards, it carries exactly the
/// caller's mutable fields, a freshly assigned id, zero hits, and both
/// timestamps at the insertion instant; every other record is untouched.
pub proof fn lemma_create_round_trip(pre: StoreV, post: StoreV, fields: UrlV, now: int, u: UrlV)
    requires
        store_wf(pre),
        create_effect(pre, post, fields, now, Some(u)),
    ensures
        post.records.len() == pre.records.len() + 1,
        post.records[post.records.len() - 1] == u,
        u.path == fields.path,
        u.title == fields.title,
        u.body == fields.body,
        u.icon == fields.icon,
        u.redirect == fields.redirect,
        u.hits == 0,
        u.created_at == now,
        u.updated_at == now,
        u.id == pre.next_id,
        forall|i: int| 0 <= i < pre.records.len() ==> post.records[i] == pre.records[i],
{
}

/// An update replaces every mutable field and advances the update time,
/// and never changes the id, the hit count or the creation time; records
/// of other ids are untouched. Stated for an instant no earlier than the
/// record's update time, as a wall clock gives.
pub proof fn lemma_update_preserves_identity(
    pre: StoreV,
    post: StoreV,
    id: int,
    fields: UrlV,
    now: int,
    i: int,
)
    requires
        store_wf(pre),
        update_effect(pre, post, id, fields, now, true),
        0 <= i < pre.records.len(),
        pre.records[i].id == id,
        now >= pre.records[i].updated_at,
    ensures
        post.records.len() == pre.records.len(),
        post.records[i].id == pre.records[i].id,
        post.records[i].hits == pre.records[i].hits,
        post.records[i].created_at == pre.records[i].created_at,
        post.records[i].path == fields.path,
        post.records[i].title == fields.title,
        post.records[i].body == fields.body,
        post.records[i].icon == fields.icon,
        post.records[i].redirect == fields.redirect,
        post.records[i].updated_at == now,
        post.records[i].updated_at >= pre.records[i].updated_at,
        forall|j: int|
            0 <= j < pre.records.len() && j != i ==> post.records[j] == pre.records[j],
{
    assert(pre.records[i].created_at <= pre.records[i].updated_at);
}

/// Deletion is idempotent: deleting the same id again changes nothing.
pub proof fn lemma_delete_idempotent(records: Seq<UrlV>, id: int)
    ensures
        spec_delete(spec_delete(records, id), id) == spec_delete(records, id),
{
    lemma_delete_removes_id(records, id);
    lemma_delete_absent(spec_delete(records, id), id);
}

} // verus!
