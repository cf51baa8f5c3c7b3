//! A map from addresses to the links that lead there.

use std::collections::BTreeMap;

use vstd::prelude::*;

use crate::hash::{AddressHash, LinkId};

verus! {

broadcast use vstd::laws_cmp::group_laws_cmp;

/// Which link leads to which address.
pub struct LinkMap {
    map: BTreeMap<u128, LinkId>,
}

impl View for LinkMap {
    type V = Map<AddressHash, LinkId>;

    closed spec fn view(&self) -> Map<AddressHash, LinkId> {
        Map::new(
            |address: AddressHash| self.map@.contains_key(address.key()),
            |address: AddressHash| self.map@[address.key()],
        )
    }
}

impl Default for LinkMap {
    fn default() -> (links: Self)
        ensures
            links@ == Map::<AddressHash, LinkId>::empty(),
    {
        LinkMap::new()
    }
}

impl LinkMap {
    /// A map without links.
    pub fn new() -> (links: Self)
        ensures
            links@ == Map::<AddressHash, LinkId>::empty(),
    {
        let links = LinkMap { map: BTreeMap::new() };
        assert(links@ =~= Map::<AddressHash, LinkId>::empty());
        links
    }

    /// The link that leads to `address`, if one is known.
    pub fn resolve(&self, address: &AddressHash) -> (id: Option<LinkId>)
        ensures
            id == (if self@.contains_key(*address) { Some(self@[*address]) } else { None }),
    {
        match self.map.get(&address.value) {
            Some(id) => Some(*id),
            None => None,
        }
    }

    /// Let `address` be reached over the link `id`, whatever led there before.
    pub fn insert(&mut self, address: &AddressHash, id: &LinkId)
        ensures
            final(self)@ == old(self)@.insert(*address, *id),
    {
        self.map.insert(address.value, *id);
        assert(self@ =~= old(self)@.insert(*address, *id));
    }

    /// Forget which link leads to `address`.
    pub fn remove(&mut self, address: &AddressHash)
        ensures
            final(self)@ == old(self)@.remove(*address),
    {
        self.map.remove(&address.value);
        assert(self@ =~= old(self)@.remove(*address));
    }
}

/// The last link given for an address is the one that leads there, whatever was
/// known of it before; other addresses are not affected, and a removed address
/// leads nowhere.
pub proof fn last_insert_wins(
    links: Map<AddressHash, LinkId>,
    address: AddressHash,
    first: LinkId,
    last: LinkId,
    other: AddressHash,
)
    requires
        other != address,
    ensures
        links.insert(address, first).insert(address, last) == links.insert(address, last),
        links.insert(address, last)[address] == last,
        links.insert(address, last).contains_key(other) == links.contains_key(other),
        links.contains_key(other) ==> links.insert(address, last)[other] == links[other],
        !links.insert(address, last).remove(address).contains_key(address),
        !links.contains_key(address) ==> links.insert(address, last).remove(address) == links,
{
    assert(links.insert(address, first).insert(address, last) =~= links.insert(address, last));
    if !links.contains_key(address) {
        assert(links.insert(address, last).remove(address) =~= links);
    }
}

/// The link that was given for an address is the one that leads there; to every
/// other address leads what led there before.
pub proof fn inserted_link_is_found(
    links: &mut LinkMap,
    before: &LinkMap,
    after: &LinkMap,
    address: AddressHash,
    id: LinkId,
    other: AddressHash,
    found: Option<LinkId>,
    other_before: Option<LinkId>,
    other_after: Option<LinkId>,
)
    requires
        *before == *old(links),
        *after == *final(links),
        call_ensures(LinkMap::insert, (links, &address, &id), ()),
        call_ensures(LinkMap::resolve, (after, &address), found),
        call_ensures(LinkMap::resolve, (before, &other), other_before),
        call_ensures(LinkMap::resolve, (after, &other), other_after),
    ensures
        found == Some(id),
        other != address ==> other_after == other_before,
{
}

/// No link leads to an address that was removed; to every other address leads what
/// led there before.
pub proof fn removed_link_is_not_found(
    links: &mut LinkMap,
    before: &LinkMap,
    after: &LinkMap,
    address: AddressHash,
    other: AddressHash,
    found: Option<LinkId>,
    other_before: Option<LinkId>,
    other_after: Option<LinkId>,
)
    requires
        *before == *old(links),
        *after == *final(links),
        call_ensures(LinkMap::remove, (links, &address), ()),
        call_ensures(LinkMap::resolve, (after, &address), found),
        call_ensures(LinkMap::resolve, (before, &other), other_before),
        call_ensures(LinkMap::resolve, (after, &other), other_after),
    ensures
        found is None,
        other != address ==> other_after == other_before,
{
}

/// In a new map no link leads anywhere.
pub proof fn new_map_leads_nowhere(links: LinkMap, address: AddressHash, found: Option<LinkId>)
    requires
        call_ensures(LinkMap::new, (), links),
        call_ensures(LinkMap::resolve, (&links, &address), found),
    ensures
        found is None,
{
}

} // verus!
