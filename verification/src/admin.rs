//! The admin surface: every request must carry the configured token, and
//! only then may it reach the CRUD operations on the mapping store.

use vstd::prelude::*;

use crate::db::{create_effect, spec_delete, update_effect, Store};
use crate::error::{Error, ErrorKind};
use crate::models::{Url, UrlV};
use crate::text::str_eq_constant_time;

verus! {

/// The admin gateway: holds the configured token and guards the CRUD
/// surface with it.
pub struct Gateway {
    pub token: String,
}

/// Build the admin gateway around the configured token.
pub fn service(token: &str) -> (g: Gateway)
    ensures
        g.token@ == token@,
{
    Gateway { token: String::from_str(token) }
}

/// A credential authorizes exactly when it is present and equals the
/// configured token, character for character.
pub open spec fn spec_authorized(g: Gateway, auth: Option<&str>) -> bool {
    auth matches Some(p) && p@ == g.token@
}

/// An operation of the admin CRUD surface, with what it carries.
pub enum AdminRequest {
    List,
    Create(Url),
    Update(i64, Url),
    Delete(i64),
}

/// What a successful admin operation answers with.
#[derive(Debug)]
pub enum AdminReply {
    Urls(Vec<Url>),
    Done,
}

/// All records, for the admin listing.
pub fn list_urls(store: &Store) -> (r: Vec<Url>)
    ensures
        r@.len() == store@.records.len(),
        forall|i: int| 0 <= i < r@.len() ==> (#[trigger] r@[i])@ == store@.records[i],
{
    Url::list(store)
}

/// Insert a new mapping from the request body; the body's id, hit count
/// and timestamps are ignored, the store assigns them.
pub fn create_url(data: Url, store: &mut Store) -> (r: Result<(), Error>)
    requires
        old(store).wf(),
    ensures
        final(store).wf(),
        r is Ok <==> old(store)@.next_id < i64::MAX,
        r is Ok ==> exists|t: int, u: UrlV|
            #[trigger] create_effect(old(store)@, final(store)@, data@, t, Some(u)),
        r matches Err(e) ==> {
            &&& final(store)@ == old(store)@
            &&& e.kind == ErrorKind::Storage
            &&& e.code == 500
        },
{
    match data.insert(store) {
        Ok(_) => Ok(()),
        Err(e) => Err(e),
    }
}

/// Remove the mapping with this id; succeeds whether or not one exists.
pub fn delete_url(id: i64, store: &mut Store) -> (r: Result<(), Error>)
    requires
        old(store).wf(),
    ensures
        final(store).wf(),
        r is Ok,
        final(store)@.records == spec_delete(old(store)@.records, id as int),
        final(store)@.next_id == old(store)@.next_id,
{
    Url::delete(id, store)
}

/// Replace the mutable fields of the mapping with this id by the request
/// body's fields; absent id answers `NotFound`.
pub fn update_url(id: i64, data: Url, store: &mut Store) -> (r: Result<(), Error>)
    requires
        old(store).wf(),
    ensures
        final(store).wf(),
        exists|t: int|
            #[trigger] update_effect(old(store)@, final(store)@, id as int, data@, t, r is Ok),
        r matches Err(e) ==> {
            &&& e.kind == ErrorKind::NotFound
            &&& e.code == 404
        },
{
    let ghost fields = data@;
    let mut d = data;
    d.id = id;
    let r = d.update(store);
    proof {
        let t = choose|t: int|
            #[trigger] update_effect(old(store)@, store@, d.id as int, d@, t, r is Ok);
        assert(update_effect(old(store)@, store@, id as int, fields, t, r is Ok));
    }
    r
}

impl Gateway {
    /// Check a request's credential against the configured token.
    pub fn authorize(&self, auth: Option<&str>) -> (r: bool)
        ensures
            r == spec_authorized(*self, auth),
    {
        match auth {
            Some(p) => str_eq_constant_time(p, self.token.as_str()),
            None => false,
        }
    }

    /// Dispatch an admin operation. A missing or wrong credential answers
    /// 401 and leaves the store untouched, before any CRUD logic runs;
    /// with the right credential the operation behaves as the matching
    /// store operation.
    pub fn handle(&self, auth: Option<&str>, req: AdminRequest, store: &mut Store) -> (r: Result<
        AdminReply,
        Error,
    >)
        requires
            old(store).wf(),
        ensures
            final(store).wf(),
            !spec_authorized(*self, auth) ==> (r matches Err(e) && e.kind
                == ErrorKind::Unauthorized && e.code == 401 && final(store)@ == old(store)@),
            spec_authorized(*self, auth) ==> match req {
                AdminRequest::List => (r matches Ok(reply) && reply matches AdminReply::Urls(v) && {
                    &&& final(store)@ == old(store)@
                    &&& v@.len() == old(store)@.records.len()
                    &&& forall|i: int|
                        0 <= i < v@.len() ==> (#[trigger] v@[i])@ == old(store)@.records[i]
                }),
                AdminRequest::Create(data) => {
                    &&& (r is Ok <==> old(store)@.next_id < i64::MAX)
                    &&& r is Ok ==> (r matches Ok(AdminReply::Done) && exists|t: int, u: UrlV|
                        #[trigger] create_effect(old(store)@, final(store)@, data@, t, Some(u)))
                    &&& (r matches Err(e) ==> {
                        &&& final(store)@ == old(store)@
                        &&& e.kind == ErrorKind::Storage
                        &&& e.code == 500
                    })
                },
                AdminRequest::Update(id, data) => {
                    &&& exists|t: int|
                        #[trigger] update_effect(
                            old(store)@,
                            final(store)@,
                            id as int,
                            data@,
                            t,
                            r is Ok,
                        )
                    &&& (r is Ok ==> r matches Ok(AdminReply::Done))
                    &&& (r matches Err(e) ==> {
                        &&& e.kind == ErrorKind::NotFound
                        &&& e.code == 404
                    })
                },
                AdminRequest::Delete(id) => {
                    &&& r matches Ok(AdminReply::Done)
                    &&& final(store)@.records == spec_delete(old(store)@.records, id as int)
                    &&& final(store)@.next_id == old(store)@.next_id
                },
            },
    {
        if !self.authorize(auth) {
            return Err(Error::new(ErrorKind::Unauthorized, "missing or wrong admin token"));
        }
        match req {
            AdminRequest::List => Ok(AdminReply::Urls(list_urls(store))),
            AdminRequest::Create(data) => match create_url(data, store) {
                Ok(_) => Ok(AdminReply::Done),
                Err(e) => Err(e),
            },
            AdminRequest::Update(id, data) => {
                let ghost fields = data@;
                let r0 = update_url(id, data, store);
                let r: Result<AdminReply, Error> = match r0 {
                    Ok(_) => Ok(AdminReply::Done),
                    Err(e) => Err(e),
                };
                proof {
                    let t = choose|t: int|
                        #[trigger] update_effect(
                            old(store)@,
                            store@,
                            id as int,
                            fields,
                            t,
                            r0 is Ok,
                        );
                    assert(update_effect(old(store)@, store@, id as int, fields, t, r is Ok));
                }
                r
            },
            AdminRequest::Delete(id) => match delete_url(id, store) {
                Ok(_) => Ok(AdminReply::Done),
                Err(e) => Err(e),
            },
        }
    }
}

} // verus!
