//! Checklist data shapes and the access rules route logic applies.
//!
//! Storage and transport of these records belong to collaborating
//! components; this module holds the records as plain values and the
//! decisions made over them: who may read or edit, who may delete, and
//! that a checklist never loses its last owner.

use vstd::prelude::*;

use crate::error::{ArgentError, ErrorStatus};
use crate::helpers::{parse_uuid, spec_parse_uuid, ArgentResult};

verus! {

/// The access a user holds on a checklist. `NoAccess` is the absence
/// of any grant.
#[derive(Clone, Copy, PartialEq, Eq, Structural, Debug)]
pub enum AccessType {
    Owner,
    Editor,
    NoAccess,
}

/// A request to create a checklist.
#[derive(Debug)]
pub struct ChecklistRequest {
    pub name: String,
}

/// A checklist: its identifier bytes and display name.
#[derive(Debug)]
pub struct Checklist {
    pub id: Vec<u8>,
    pub name: String,
}

impl Checklist {
    /// Builds the checklist a creation request describes, under a
    /// freshly drawn identifier.
    pub fn from_request(request: ChecklistRequest, id: Vec<u8>) -> (r: Checklist)
        ensures
            r.id@ == id@,
            r.name@ == request.name@,
    {
        Checklist { id, name: request.name }
    }
}

/// A request to add an item to a checklist, naming the checklist by
/// its identifier text (as UTF-8 bytes).
#[derive(Debug)]
pub struct ChecklistItemRequest {
    pub title: String,
    pub checklist: Vec<u8>,
}

/// One checklist item.
#[derive(Debug)]
pub struct ChecklistItem {
    pub id: Vec<u8>,
    pub title: String,
    pub checklist: Vec<u8>,
    pub done: bool,
    pub created_at: i64,
}

impl ChecklistItemRequest {
    /// Builds the stored item an item request describes, under a fresh
    /// identifier and creation time: new items start not done, and a
    /// request naming a malformed checklist identifier is a
    /// `BadRequest`.
    pub fn get(self, id: Vec<u8>, created_at: i64) -> (r: Result<ChecklistItem, ArgentError>)
        ensures
            (r is Ok) == (spec_parse_uuid(self.checklist@) is Some),
            r matches Ok(item) ==> {
                &&& Some(item.checklist@) == spec_parse_uuid(self.checklist@)
                &&& item.id@ == id@
                &&& item.title@ == self.title@
                &&& item.done == false
                &&& item.created_at == created_at
            },
            r is Err ==> r.unwrap_err().status == ErrorStatus::BadRequest,
    {
        let checklist = parse_uuid(&self.checklist, ErrorStatus::BadRequest)?;
        Ok(ChecklistItem { id, title: self.title, checklist, done: false, created_at })
    }
}

/// One user's access to a checklist, as shown when sharing.
#[derive(Debug)]
pub struct UserAccess {
    pub id: Vec<u8>,
    pub name: String,
    pub access_type: AccessType,
}

/// A request to share a checklist with a user.
#[derive(Debug)]
pub struct ShareRequest {
    pub user_id: String,
    pub access_type: AccessType,
}

/// Whether an access grade allows reading and editing.
pub open spec fn spec_may_access(t: AccessType) -> bool {
    t == AccessType::Owner || t == AccessType::Editor
}

/// Admits owners and editors; `NoAccess` is `Forbidden`.
pub fn check_access(t: AccessType) -> (r: ArgentResult<()>)
    ensures
        (r is Ok) == spec_may_access(t),
        r is Err ==> r.unwrap_err().status == ErrorStatus::Forbidden,
{
    match t {
        AccessType::Owner | AccessType::Editor => Ok(()),
        AccessType::NoAccess => Err(ArgentError::forbidden()),
    }
}

/// Admits owners only; anything less is `Forbidden`.
pub fn check_owner(t: AccessType) -> (r: ArgentResult<()>)
    ensures
        (r is Ok) == (t == AccessType::Owner),
        r is Err ==> r.unwrap_err().status == ErrorStatus::Forbidden,
{
    match t {
        AccessType::Owner => Ok(()),
        _ => Err(ArgentError::forbidden()),
    }
}

/// The number of owners among a list of access grants.
pub open spec fn spec_owner_count(ts: Seq<AccessType>) -> int
    decreases ts.len(),
{
    if ts.len() == 0 {
        0
    } else {
        spec_owner_count(ts.drop_last()) + (if ts.last() == AccessType::Owner {
            1int
        } else {
            0int
        })
    }
}

/// The access grades of a list of user accesses.
pub open spec fn access_types_view(us: Seq<UserAccess>) -> Seq<AccessType> {
    us.map_values(|u: UserAccess| u.access_type)
}

/// Guards the removal of a user's access: removing is refused exactly
/// when the checklist has one owner left, so it never loses its last
/// owner.
pub fn check_not_last_owner(users: &Vec<UserAccess>) -> (r: ArgentResult<()>)
    ensures
        (r is Ok) == (spec_owner_count(access_types_view(users@)) != 1),
        r is Err ==> r.unwrap_err().status == ErrorStatus::BadRequest && r.unwrap_err().msg@
            == "cannot remove the last owner of a checklist"@,
{
    let ghost ts: Seq<AccessType> = access_types_view(users@);
    let mut owners: usize = 0;
    let mut i: usize = 0;
    proof {
        assert(ts.take(0) =~= Seq::<AccessType>::empty());
    }
    while i < users.len()
        invariant
            i <= users@.len(),
            owners <= i,
            ts == access_types_view(users@),
            owners == spec_owner_count(ts.take(i as int)),
        decreases users@.len() - i,
    {
        proof {
            assert(ts.take(i as int + 1).drop_last() =~= ts.take(i as int));
            assert(ts.take(i as int + 1).last() == ts[i as int]);
        }
        if matches!(users[i].access_type, AccessType::Owner) {
            owners += 1;
        }
        i += 1;
    }
    proof {
        assert(ts.take(users@.len() as int) =~= ts);
    }
    if owners == 1 {
        Err(ArgentError::bad_request_msg("cannot remove the last owner of a checklist"))
    } else {
        Ok(())
    }
}

} // verus!
