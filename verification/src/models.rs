//! The mapping record: a short path, its destination URL, the metadata a
//! preview card is rendered from, and the bookkeeping the store maintains.

use vstd::prelude::*;

use crate::db::{
    bump_hits, create_effect, find_by_path, incr_effect, lemma_delete_step,
    lemma_find_skips_prefix, replaced, spec_delete, update_effect, valid_record, views, Store,
};
use crate::error::{Error, ErrorKind};
use crate::text::str_eq;

verus! {

/// Mathematical image of a mapping record: every field as a plain value.
pub ghost struct UrlV {
    pub id: int,
    pub path: Seq<char>,
    pub title: Seq<char>,
    pub body: Seq<char>,
    pub icon: Seq<char>,
    pub redirect: Seq<char>,
    pub hits: int,
    pub created_at: int,
    pub updated_at: int,
}

/// A mapping record. `id` is store-assigned and never reused, `hits` counts
/// end-user resolutions, and the timestamps are microseconds since the epoch.
#[derive(Debug)]
pub struct Url {
    pub id: i64,
    pub path: String,
    pub title: String,
    pub body: String,
    pub icon: String,
    pub redirect: String,
    pub hits: u64,
    pub created_at: i64,
    pub updated_at: i64,
}

impl View for Url {
    type V = UrlV;

    open spec fn view(&self) -> UrlV {
        UrlV {
            id: self.id as int,
            path: self.path@,
            title: self.title@,
            body: self.body@,
            icon: self.icon@,
            redirect: self.redirect@,
            hits: self.hits as int,
            created_at: self.created_at as int,
            updated_at: self.updated_at as int,
        }
    }
}

impl Clone for Url {
    fn clone(&self) -> (r: Self)
        ensures
            r@ == self@,
    {
        Url {
            id: self.id,
            path: self.path.clone(),
            title: self.title.clone(),
            body: self.body.clone(),
            icon: self.icon.clone(),
            redirect: self.redirect.clone(),
            hits: self.hits,
            created_at: self.created_at,
            updated_at: self.updated_at,
        }
    }
}

/// The preview document rendered for a crawler, with the record's icon,
/// title and body embedded at their places.
pub open spec fn html_of(icon: Seq<char>, title: Seq<char>, body: Seq<char>) -> Seq<char> {
    "<!DOCTYPE html>\n<html lang=\"zh-CN\">\n<head>\n    <meta charset=\"UTF-8\">\n    <meta http-equiv=\"X-UA-Compatible\" content=\"IE=edge\">\n    <meta name=\"viewport\" content=\"width=device-width, initial-scale=1.0\">\n    <link rel=\"shortcut icon\" href=\""@
        + icon
        + "\" type=\"image/x-icon\">\n    <title>"@
        + title
        + "</title>\n</head>\n\n<body>\n<div>"@
        + body
        + "</div>\n</body>\n</html>"@
}

impl Url {
    /// Render the minimal HTML preview document for this record.
    pub fn html(&self) -> (r: String)
        ensures
            r@ == html_of(self.icon@, self.title@, self.body@),
    {
        let mut s = String::from_str(
            "<!DOCTYPE html>\n<html lang=\"zh-CN\">\n<head>\n    <meta charset=\"UTF-8\">\n    <meta http-equiv=\"X-UA-Compatible\" content=\"IE=edge\">\n    <meta name=\"viewport\" content=\"width=device-width, initial-scale=1.0\">\n    <link rel=\"shortcut icon\" href=\"",
        );
        s.append(self.icon.as_str());
        s.append("\" type=\"image/x-icon\">\n    <title>");
        s.append(self.title.as_str());
        s.append("</title>\n</head>\n\n<body>\n<div>");
        s.append(self.body.as_str());
        s.append("</div>\n</body>\n</html>");
        proof {
            assert(s@ =~= html_of(self.icon@, self.title@, self.body@));
        }
        s
    }

    /// Resolve a path to its record: the first match in store order, which
    /// is the lowest-id match among logical duplicates.
    pub fn from_path(path: &str, store: &Store) -> (r: Option<Url>)
        requires
            store.wf(),
        ensures
            match r {
                Some(u) => {
                    &&& find_by_path(store@.records, path@) == Some(u@)
                    &&& forall|i: int|
                        0 <= i < store@.records.len() && (#[trigger] store@.records[i]).path
                            == path@ ==> u@.id <= store@.records[i].id
                },
                None => find_by_path(store@.records, path@) is None,
            },
    {
        let ghost recs = store@.records;
        let n = store.records.len();
        let mut i: usize = 0;
        while i < n
            invariant
                store.wf(),
                recs == store@.records,
                n == store.records.len(),
                i <= n,
                forall|j: int| 0 <= j < i ==> (#[trigger] recs[j]).path != path@,
            decreases n - i,
        {
            if str_eq(store.records[i].path.as_str(), path) {
                proof {
                    lemma_find_skips_prefix(recs, path@, i as int);
                    assert(recs.subrange(i as int, recs.len() as int)[0] == recs[i as int]);
                    assert forall|j: int|
                        0 <= j < recs.len() && (#[trigger] recs[j]).path == path@ implies recs[i as int].id
                        <= recs[j].id by {
                        assert(j >= i);
                    }
                }
                return Some(store.records[i].clone());
            }
            i += 1;
        }
        proof {
            lemma_find_skips_prefix(recs, path@, n as int);
            assert(recs.subrange(n as int, recs.len() as int).len() == 0);
        }
        None
    }

    /// All records of the store, in store order.
    pub fn list(store: &Store) -> (r: Vec<Url>)
        ensures
            r@.len() == store@.records.len(),
            forall|i: int| 0 <= i < r@.len() ==> (#[trigger] r@[i])@ == store@.records[i],
    {
        let n = store.records.len();
        let mut out: Vec<Url> = Vec::new();
        let mut i: usize = 0;
        while i < n
            invariant
                n == store.records.len(),
                i <= n,
                out@.len() == i,
                forall|j: int| 0 <= j < i ==> (#[trigger] out@[j])@ == store@.records[j],
            decreases n - i,
        {
            out.push(store.records[i].clone());
            i += 1;
        }
        out
    }

    /// Insert this record's mutable fields as a new mapping at instant
    /// `now`: the store assigns a fresh id, starts the hit count at zero
    /// and stamps both times with `now`. Whatever id, hit count or
    /// timestamps the caller put in `self` are ignored. Fails only when
    /// the id space is exhausted.
    pub fn insert_at(self, store: &mut Store, now: i64) -> (r: Result<Url, Error>)
        requires
            old(store).wf(),
        ensures
            final(store).wf(),
            match r {
                Ok(u) => create_effect(old(store)@, final(store)@, self@, now as int, Some(u@)),
                Err(e) => {
                    &&& create_effect(old(store)@, final(store)@, self@, now as int, None)
                    &&& e.kind == ErrorKind::Storage
                    &&& e.code == 500
                },
            },
            r is Ok <==> old(store)@.next_id < i64::MAX,
    {
        if store.next_id == i64::MAX {
            return Err(Error::new(ErrorKind::Storage, "mapping id space exhausted"));
        }
        let id = store.next_id;
        let u = Url {
            id,
            path: self.path,
            title: self.title,
            body: self.body,
            icon: self.icon,
            redirect: self.redirect,
            hits: 0,
            created_at: now,
            updated_at: now,
        };
        let r = u.clone();
        store.records.push(u);
        store.next_id = id + 1;
        proof {
            assert(final(store)@.records =~= old(store)@.records.push(r@));
        }
        Ok(r)
    }

    /// Insert this record's mutable fields as a new mapping, stamped with
    /// the present instant.
    pub fn insert(self, store: &mut Store) -> (r: Result<Url, Error>)
        requires
            old(store).wf(),
        ensures
            final(store).wf(),
            r matches Ok(u) ==> exists|t: int|
                create_effect(old(store)@, final(store)@, self@, t, Some(u@)),
            r matches Err(e) ==> {
                &&& final(store)@ == old(store)@
                &&& e.kind == ErrorKind::Storage
                &&& e.code == 500
            },
            r is Ok <==> old(store)@.next_id < i64::MAX,
    {
        let now = now_micros();
        self.insert_at(store, now)
    }

    /// Replace the mutable fields of the record carrying `self.id` with
    /// this record's fields at instant `now`: the update time advances to
    /// `now`, while id, hit count and creation time stay. Fails with
    /// `NotFound` exactly when no record carries the id, and then changes
    /// nothing.
    pub fn update_at(&self, store: &mut Store, now: i64) -> (r: Result<(), Error>)
        requires
            old(store).wf(),
        ensures
            final(store).wf(),
            update_effect(old(store)@, final(store)@, self.id as int, self@, now as int, r is Ok),
            r matches Err(e) ==> {
                &&& e.kind == ErrorKind::NotFound
                &&& e.code == 404
            },
    {
        let ghost orig = store@;
        let n = store.records.len();
        let mut i: usize = 0;
        while i < n
            invariant
                store.wf(),
                store@ == orig,
                orig == old(store)@,
                n == store.records.len(),
                i <= n,
                forall|j: int| 0 <= j < i ==> (#[trigger] orig.records[j]).id != self.id as int,
            decreases n - i,
        {
            if store.records[i].id == self.id {
                let created = store.records[i].created_at;
                let hits = store.records[i].hits;
                let updated = if now >= created {
                    now
                } else {
                    created
                };
                let nu = Url {
                    id: self.id,
                    path: self.path.clone(),
                    title: self.title.clone(),
                    body: self.body.clone(),
                    icon: self.icon.clone(),
                    redirect: self.redirect.clone(),
                    hits,
                    created_at: created,
                    updated_at: updated,
                };
                let _ = store.records.remove(i);
                store.records.insert(i, nu);
                proof {
                    let k = i as int;
                    assert(orig.records[k].id == self.id as int);
                    assert(store@.records =~= orig.records.update(
                        k,
                        replaced(orig.records[k], self@, now as int),
                    ));
                    assert forall|j: int|
                        0 <= j < orig.records.len() && (#[trigger] orig.records[j]).id == self.id
                            as int implies store@.records == orig.records.update(
                        j,
                        replaced(orig.records[j], self@, now as int),
                    ) by {
                        if j < k || k < j {
                            assert(orig.records[j].id != orig.records[k].id);
                        }
                    }
                }
                return Ok(());
            }
            i += 1;
        }
        Err(Error::new(ErrorKind::NotFound, "no mapping with this id"))
    }

    /// Replace the mutable fields of the record carrying `self.id`,
    /// stamping the update with the present instant.
    pub fn update(&self, store: &mut Store) -> (r: Result<(), Error>)
        requires
            old(store).wf(),
        ensures
            final(store).wf(),
            exists|t: int|
                #[trigger] update_effect(
                    old(store)@,
                    final(store)@,
                    self.id as int,
                    self@,
                    t,
                    r is Ok,
                ),
            r matches Err(e) ==> {
                &&& e.kind == ErrorKind::NotFound
                &&& e.code == 404
            },
    {
        let now = now_micros();
        self.update_at(store, now)
    }

    /// Remove every record carrying `id`; succeeds whether or not one
    /// exists, so deleting is idempotent.
    pub fn delete(id: i64, store: &mut Store) -> (r: Result<(), Error>)
        requires
            old(store).wf(),
        ensures
            final(store).wf(),
            r is Ok,
            final(store)@.records == spec_delete(old(store)@.records, id as int),
            final(store)@.next_id == old(store)@.next_id,
    {
        let ghost orig = store@;
        let n = store.records.len();
        let mut out: Vec<Url> = Vec::new();
        let mut i: usize = 0;
        while i < n
            invariant
                store.wf(),
                store@ == orig,
                n == store.records.len(),
                i <= n,
                views(out@) == spec_delete(orig.records.subrange(0, i as int), id as int),
                forall|a: int|
                    0 <= a < out@.len() ==> valid_record(
                        (#[trigger] out@[a])@,
                        orig.next_id,
                    ),
                forall|a: int, b: int|
                    0 <= a < b < out@.len() ==> (out@[a])@.id < (out@[b])@.id,
                out@.len() > 0 ==> i > 0 && (out@[out@.len() - 1])@.id <= orig.records[i - 1].id,
            decreases n - i,
        {
            proof {
                lemma_delete_step(orig.records.subrange(0, i + 1), id as int);
                assert(orig.records.subrange(0, i + 1).drop_last() =~= orig.records.subrange(
                    0,
                    i as int,
                ));
                assert(orig.records.subrange(0, i + 1).last() == orig.records[i as int]);
            }
            if store.records[i].id != id {
                proof {
                    if out@.len() > 0 {
                        assert(orig.records[i - 1].id < orig.records[i as int].id);
                    }
                }
                out.push(store.records[i].clone());
                proof {
                    assert(views(out@) =~= spec_delete(
                        orig.records.subrange(0, i + 1),
                        id as int,
                    ));
                    assert((out@[out@.len() - 1])@ == orig.records[i as int]);
                }
            }
            i += 1;
        }
        proof {
            assert(orig.records.subrange(0, n as int) =~= orig.records);
        }
        store.records = out;
        Ok(())
    }

    /// Count one hit on the record carrying `id`: its counter rises by one
    /// (saturating at its width); an absent id changes nothing, and the
    /// call succeeds either way.
    pub fn incr(id: i64, store: &mut Store) -> (r: Result<(), Error>)
        requires
            old(store).wf(),
        ensures
            final(store).wf(),
            r is Ok,
            incr_effect(old(store)@, final(store)@, id as int),
    {
        let ghost orig = store@;
        let n = store.records.len();
        let mut i: usize = 0;
        while i < n
            invariant
                store.wf(),
                store@ == orig,
                orig == old(store)@,
                n == store.records.len(),
                i <= n,
                forall|j: int| 0 <= j < i ==> (#[trigger] orig.records[j]).id != id as int,
            decreases n - i,
        {
            if store.records[i].id == id {
                let hits = store.records[i].hits;
                let bumped = if hits < u64::MAX {
                    hits + 1
                } else {
                    hits
                };
                let u = store.records[i].clone();
                let nu = Url { hits: bumped, ..u };
                let _ = store.records.remove(i);
                store.records.insert(i, nu);
                proof {
                    let k = i as int;
                    assert(orig.records[k].id == id as int);
                    assert(store@.records =~= orig.records.update(
                        k,
                        bump_hits(orig.records[k]),
                    ));
                    assert forall|j: int|
                        0 <= j < orig.records.len() && (#[trigger] orig.records[j]).id == id
                            as int implies store@.records == orig.records.update(
                        j,
                        bump_hits(orig.records[j]),
                    ) by {
                        if j < k || k < j {
                            assert(orig.records[j].id != orig.records[k].id);
                        }
                    }
                }
                return Ok(());
            }
            i += 1;
        }
        Ok(())
    }
}

/// Relies on chrono's `Utc::now`: reads the wall clock. Nothing is assumed
/// of the value it returns.
#[verifier::external_body]
fn now_micros() -> i64 {
    chrono::Utc::now().timestamp_micros()
}

} // verus!
