//! Display names for the owners of processes.
use crate::text::{decimal_spec, decimal_string};
use users::{Users, UsersCache};
use vstd::prelude::*;

verus! {

/// Resolves a user id into the name shown in the owner column.
pub trait OwnerNameResolver {
    /// Whether `name` is a name this resolver may give for `uid`; unless a
    /// resolver says more, any name.
    open spec fn gives_name(&self, uid: u32, name: Seq<char>) -> bool {
        true
    }

    /// The display name of `uid`.
    fn owner_name(&self, uid: u32) -> (r: String)
        ensures
            self.gives_name(uid, r@),
    ;
}

/// The user database cache of the `users` crate.
#[verifier::external_type_specification]
#[verifier::external_body]
pub struct ExUsersCache(UsersCache);

/// Calls `UsersCache::new`, which starts with an empty cache.
#[verifier::external_body]
fn users_cache_new() -> UsersCache {
    UsersCache::new()
}

/// Looks `uid` up through `Users::get_user_by_uid` on the cache and converts
/// the account name with `OsStr::to_string_lossy`. What the user database of
/// the machine holds is outside this library, so nothing is stated of the
/// result.
#[verifier::external_body]
fn lookup_user_name(cache: &UsersCache, uid: u32) -> Option<String> {
    match cache.get_user_by_uid(uid) {
        Some(user) => Some(user.name().to_string_lossy().into_owned()),
        None => None,
    }
}

/// The name shown for `uid`: the account name when the user database knows
/// it, else the user id in decimal.
pub open spec fn owner_display_spec(found: Option<Seq<char>>, uid: u32) -> Seq<char> {
    match found {
        Some(name) => name,
        None => decimal_spec(uid as nat),
    }
}

/// The characters of an optional name.
pub open spec fn found_view(found: Option<String>) -> Option<Seq<char>> {
    match found {
        Some(n) => Some(n@),
        None => None,
    }
}

/// Picks the name shown for `uid` from what the user database returned.
pub fn owner_display_name(found: Option<String>, uid: u32) -> (r: String)
    ensures
        r@ == owner_display_spec(found_view(found), uid),
{
    match found {
        Some(name) => name,
        None => decimal_string(uid as u64),
    }
}

/// Resolves process owner ids through the system user database.
pub struct OwnerNameCache {
    cache: UsersCache,
}

impl OwnerNameCache {
    /// A resolver with an empty cache.
    pub fn new() -> Self {
        OwnerNameCache { cache: users_cache_new() }
    }

    /// The display name of `uid`: its account name, or the id in decimal
    /// when the user database does not know it.
    pub fn resolve(&self, uid: u32) -> (r: String)
        ensures
            exists|found: Option<Seq<char>>| r@ == owner_display_spec(found, uid),
    {
        let found = lookup_user_name(&self.cache, uid);
        let ghost f = found_view(found);
        let r = owner_display_name(found, uid);
        assert(r@ == owner_display_spec(f, uid));
        r
    }
}

impl Default for OwnerNameCache {
    /// A resolver with an empty cache.
    fn default() -> Self {
        OwnerNameCache::new()
    }
}

impl OwnerNameResolver for OwnerNameCache {
    /// The account name of `uid` that the user database holds, or the id in
    /// decimal when it holds none.
    open spec fn gives_name(&self, uid: u32, name: Seq<char>) -> bool {
        exists|found: Option<Seq<char>>| name == owner_display_spec(found, uid)
    }

    fn owner_name(&self, uid: u32) -> (r: String) {
        self.resolve(uid)
    }
}

} // verus!
