use vstd::prelude::*;

use crate::discovery::in_ids;
use crate::media::copy_strings;

verus! {

/// What an account may do.
#[derive(Debug, Clone, Copy, PartialEq, Eq, Structural)]
pub enum Role {
    Admin,
    User,
    Player,
    Automation,
}

/// Who makes a request.
#[derive(Debug, Clone, PartialEq, Eq)]
pub struct Principal {
    pub user: String,
    pub role: Role,
}

/// Whether the caller administers the server.
pub fn is_admin(caller: &Principal) -> (r: bool)
    ensures
        r == (caller.role == Role::Admin),
{
    caller.role == Role::Admin
}

/// Whether the caller is an automation account.
pub fn is_automation(caller: &Principal) -> (r: bool)
    ensures
        r == (caller.role == Role::Automation),
{
    caller.role == Role::Automation
}

/// Whether `library` is among the granted ones.
pub fn can_access_library(access: &[String], library: &str) -> (r: bool)
    ensures
        r == in_ids(access@, library@),
{
    crate::discovery::contains_id(access, library)
}

/// Whether a title rated for ages `item` and up may be shown under a cap of ages `cap`
/// and up: only a known rating above a known cap is refused.
pub open spec fn permits_spec(cap: Option<u8>, item: Option<u8>) -> bool {
    match (cap, item) {
        (Some(c), Some(i)) => i <= c,
        _ => true,
    }
}

/// Whether a rating's age floor is within a cap's age floor.
pub fn rating_permits(cap: Option<u8>, item: Option<u8>) -> (r: bool)
    ensures
        r == permits_spec(cap, item),
{
    match (cap, item) {
        (Some(c), Some(i)) => i <= c,
        _ => true,
    }
}

/// What an account may see: a rating cap, as an age floor, and the libraries granted.
pub struct Viewer {
    cap: Option<u8>,
    access: Vec<String>,
}

/// The libraries a query is scoped to: the one asked for when it is granted, nothing
/// when it is not, every granted one when none is asked for.
pub open spec fn scope_spec(access: Seq<String>, library: Option<Seq<char>>) -> Seq<Seq<char>> {
    match library {
        Some(l) => if in_ids(access, l) { seq![l] } else { Seq::empty() },
        None => access.map_values(|s: String| s@),
    }
}

impl Viewer {
    pub closed spec fn cap_spec(&self) -> Option<u8> {
        self.cap
    }

    pub closed spec fn access_spec(&self) -> Seq<String> {
        self.access@
    }

    /// A viewer with an account's cap and grants; a missing account has neither.
    pub fn new(cap: Option<u8>, access: Vec<String>) -> (r: Self)
        ensures
            r.cap_spec() == cap,
            r.access_spec() == access@,
    {
        Viewer { cap, access }
    }

    /// Whether a title with this rating's age floor may be shown.
    pub fn permits(&self, rating: Option<u8>) -> (r: bool)
        ensures
            r == permits_spec(self.cap_spec(), rating),
    {
        rating_permits(self.cap, rating)
    }

    /// Whether the viewer was granted `library`.
    pub fn sees_library(&self, library: &str) -> (r: bool)
        ensures
            r == in_ids(self.access_spec(), library@),
    {
        can_access_library(&self.access, library)
    }

    /// The libraries a listing is scoped to; an empty scope means nothing is listed.
    pub fn scope(&self, library: Option<&str>) -> (r: Vec<String>)
        ensures
            r@.map_values(|s: String| s@) == scope_spec(self.access_spec(), match library {
                Some(l) => Some(l@),
                None => None,
            }),
    {
        match library {
            Some(lib) => {
                if can_access_library(&self.access, lib) {
                    let mut one: Vec<String> = Vec::new();
                    one.push(lib.to_owned());
                    assert(one@.map_values(|s: String| s@) =~= seq![lib@]);
                    one
                } else {
                    let none: Vec<String> = Vec::new();
                    assert(none@.map_values(|s: String| s@) =~= Seq::<Seq<char>>::empty());
                    none
                }
            },
            None => {
                let all = copy_strings(&self.access);
                all
            },
        }
    }
}

/// A scope never reaches past the grants: every library in it was granted.
pub proof fn law_scope_stays_within_grants(access: Seq<String>, library: Option<Seq<char>>)
    ensures
        forall|k: int| 0 <= k < scope_spec(access, library).len()
            ==> in_ids(access, #[trigger] scope_spec(access, library)[k]),
{
    assert forall|k: int| 0 <= k < scope_spec(access, library).len()
        implies in_ids(access, #[trigger] scope_spec(access, library)[k]) by {
        if library is None {
            assert(access[k]@ == scope_spec(access, library)[k]);
        }
    }
}

/// The viewer of an account, from what the user store holds: the account's cap (nothing
/// when the account is missing or uncapped) and its grants, which for a missing account
/// are none, so that it sees no library.
pub fn viewer(account_cap: Option<Option<u8>>, access: Vec<String>) -> (r: Viewer)
    ensures
        r.cap_spec() == match account_cap { Some(c) => c, None => None },
        r.access_spec() == access@,
{
    let cap = match account_cap {
        Some(c) => c,
        None => None,
    };
    Viewer::new(cap, access)
}

} // verus!
