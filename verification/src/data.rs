use vstd::prelude::*;
use vstd::string::StringExecFns;

verus! {

#[verifier::external_type_specification]
#[verifier::external_body]
#[verifier::reject_recursive_types(K)]
#[verifier::reject_recursive_types(V)]
#[verifier::reject_recursive_types(S)]
pub struct ExDashMap<K, V, S>(dashmap::DashMap<K, V, S>);

/// A cache map with nothing in it.
pub open spec fn no_entries() -> Map<i64, Seq<char>> {
    Map::empty()
}

/// What the map holds: each guild's prefix under its id.
pub uninterp spec fn prefix_entries(m: dashmap::DashMap<i64, String>) -> Map<i64, Seq<char>>;

/// The in-memory cache of guild command prefixes, consulted before
/// the prefix store is read. Backed by a concurrent map, so the chat
/// layer can share one cache across its handlers.
pub struct PrefixCache {
    inner: dashmap::DashMap<i64, String>,
}

impl View for PrefixCache {
    type V = Map<i64, Seq<char>>;

    closed spec fn view(&self) -> Map<i64, Seq<char>> {
        prefix_entries(self.inner)
    }
}

impl PrefixCache {
    /// Relies on dashmap::DashMap::new: a map holding no entries.
    #[verifier::external_body]
    fn empty_raw() -> (res: PrefixCache)
        ensures
            prefix_entries(res.inner) == no_entries(),
    {
        PrefixCache { inner: dashmap::DashMap::new() }
    }

    /// A cache holding no entries.
    pub fn new() -> (r: PrefixCache)
        ensures
            r@ == no_entries(),
    {
        PrefixCache::empty_raw()
    }

    /// Relies on dashmap::DashMap::get: the value stored under the
    /// key, if the map holds one.
    #[verifier::external_body]
    fn fetch_raw(&self, guild_id: i64) -> (r: Option<String>)
        ensures
            match r {
                Some(p) => prefix_entries(self.inner).dom().contains(guild_id) && p@
                    == prefix_entries(self.inner)[guild_id],
                None => !prefix_entries(self.inner).dom().contains(guild_id),
            },
    {
        match self.inner.get(&guild_id) {
            Some(entry) => Some(entry.value().clone()),
            None => None,
        }
    }

    /// Relies on dashmap::DashMap::insert: the value is stored under
    /// the key, replacing any earlier one.
    #[verifier::external_body]
    fn store_raw(&mut self, guild_id: i64, prefix: String)
        ensures
            prefix_entries(final(self).inner) == prefix_entries(old(self).inner).insert(
                guild_id,
                prefix@,
            ),
    {
        let _ = self.inner.insert(guild_id, prefix);
    }

    /// The cached prefix of a guild, if the cache holds one.
    pub fn cached(&self, guild_id: i64) -> (r: Option<String>)
        ensures
            match r {
                Some(p) => self@.dom().contains(guild_id) && p@ == self@[guild_id],
                None => !self@.dom().contains(guild_id),
            },
    {
        self.fetch_raw(guild_id)
    }

    /// After a cache miss, record what the prefix store held for the
    /// guild — or the default prefix where it held nothing — and
    /// hand that prefix back.
    pub fn resolve_miss(&mut self, guild_id: i64, row: Option<String>) -> (r: String)
        ensures
            r@ == (match row {
                Some(p) => p@,
                None => "~"@,
            }),
            final(self)@ == old(self)@.insert(guild_id, r@),
    {
        let p = crate::db::prefix_or_default(row);
        let copy = p.clone();
        self.store_raw(guild_id, copy);
        p
    }

    /// Note a prefix that was just written to the prefix store.
    pub fn note_prefix(&mut self, guild_id: i64, prefix: &str)
        ensures
            final(self)@ == old(self)@.insert(guild_id, prefix@),
    {
        self.store_raw(guild_id, String::from_str(prefix));
    }

    /// After a guild's stored prefix was deleted, fall its cache
    /// entry back to the default prefix.
    pub fn reset_prefix(&mut self, guild_id: i64)
        ensures
            final(self)@ == old(self)@.insert(guild_id, "~"@),
    {
        self.store_raw(guild_id, crate::db::default_prefix());
    }
}

} // verus!
