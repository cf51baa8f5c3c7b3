use reticulum::hash::AddressHash;
use reticulum::link_map::LinkMap;

fn address(value: u128) -> AddressHash {
    AddressHash { value }
}

#[test]
fn new_map_resolves_nothing() {
    assert_eq!(LinkMap::new().resolve(&address(1)), None);
    assert_eq!(LinkMap::default().resolve(&address(1)), None);
}

#[test]
fn inserted_link_is_resolved() {
    let mut links = LinkMap::new();
    links.insert(&address(1), &address(10));
    links.insert(&address(2), &address(20));
    assert_eq!(links.resolve(&address(1)), Some(address(10)));
    assert_eq!(links.resolve(&address(2)), Some(address(20)));
    assert_eq!(links.resolve(&address(3)), None);
}

#[test]
fn last_inserted_link_wins() {
    let mut links = LinkMap::new();
    links.insert(&address(1), &address(10));
    links.insert(&address(1), &address(11));
    assert_eq!(links.resolve(&address(1)), Some(address(11)));
}

#[test]
fn removed_link_is_forgotten() {
    let mut links = LinkMap::new();
    links.insert(&address(1), &address(10));
    links.insert(&address(2), &address(20));
    links.remove(&address(1));
    links.remove(&address(9));
    assert_eq!(links.resolve(&address(1)), None);
    assert_eq!(links.resolve(&address(2)), Some(address(20)));
}
