use vstd::prelude::*;

verus! {

/// The catalog service over a catalog store and a user store.
pub struct CatalogServiceImpl<C, U> {
    catalog: C,
    users: U,
}

impl<C, U> CatalogServiceImpl<C, U> {
    pub closed spec fn catalog_spec(&self) -> C {
        self.catalog
    }

    pub closed spec fn users_spec(&self) -> U {
        self.users
    }

    pub fn new(catalog: C, users: U) -> (r: Self)
        ensures
            r.catalog_spec() == catalog,
            r.users_spec() == users,
    {
        CatalogServiceImpl { catalog, users }
    }

    pub fn catalog(&self) -> (r: &C)
        ensures
            *r == self.catalog_spec(),
    {
        &self.catalog
    }

    pub fn users(&self) -> (r: &U)
        ensures
            *r == self.users_spec(),
    {
        &self.users
    }
}

/// The discovery service over the catalog, search index, progress, preferences and user stores.
pub struct DiscoveryServiceImpl<C, Se, Pr, Pf, U> {
    catalog: C,
    search_index: Se,
    progress: Pr,
    preferences: Pf,
    users: U,
}

impl<C, Se, Pr, Pf, U> DiscoveryServiceImpl<C, Se, Pr, Pf, U> {
    pub closed spec fn parts(&self) -> (C, Se, Pr, Pf, U) {
        (self.catalog, self.search_index, self.progress, self.preferences, self.users)
    }

    pub fn new(catalog: C, search_index: Se, progress: Pr, preferences: Pf, users: U) -> (r: Self)
        ensures
            r.parts() == (catalog, search_index, progress, preferences, users),
    {
        DiscoveryServiceImpl { catalog, search_index, progress, preferences, users }
    }

    pub fn catalog(&self) -> (r: &C)
        ensures
            *r == self.parts().0,
    {
        &self.catalog
    }

    pub fn search_index(&self) -> (r: &Se)
        ensures
            *r == self.parts().1,
    {
        &self.search_index
    }

    pub fn progress(&self) -> (r: &Pr)
        ensures
            *r == self.parts().2,
    {
        &self.progress
    }

    pub fn preferences(&self) -> (r: &Pf)
        ensures
            *r == self.parts().3,
    {
        &self.preferences
    }

    pub fn users(&self) -> (r: &U)
        ensures
            *r == self.parts().4,
    {
        &self.users
    }
}

} // verus!
