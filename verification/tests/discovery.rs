use rs_relay::address::{AddressSet, Multiaddress};
use rs_relay::discovery::{Announcement, DiscoveryAgent};

/// `/ip4/127.0.0.1/tcp/4001` in its binary form.
fn loopback() -> Vec<u8> {
    vec![0x04, 127, 0, 0, 1, 0x06, 0x0f, 0xa1]
}

/// `/ip4/10.0.0.<last>/tcp/80/ws` in its binary form.
fn ws(last: u8) -> Vec<u8> {
    vec![0x04, 10, 0, 0, last, 0x06, 0, 80, 0xdd, 0x03]
}

fn address(bytes: Vec<u8>) -> Multiaddress {
    Multiaddress::parse(bytes).expect("an address")
}

fn announcement(version: &str, observed: Vec<u8>) -> Announcement {
    Announcement { protocol_version: version.to_string(), listen_addrs: vec![loopback()], observed }
}

#[test]
fn an_address_is_what_the_multiaddr_crate_reads() {
    let parsed = address(loopback());
    assert_eq!(parsed.to_bytes(), loopback());
    let theirs = libp2p::Multiaddr::try_from(loopback()).expect("a multiaddress");
    assert_eq!(theirs.to_string(), "/ip4/127.0.0.1/tcp/4001");
    let theirs = libp2p::Multiaddr::try_from(ws(7)).expect("a multiaddress");
    assert_eq!(theirs.to_string(), "/ip4/10.0.0.7/tcp/80/ws");
    assert!(Multiaddress::parse(ws(7)).is_some());
}

#[test]
fn what_is_no_address() {
    assert!(Multiaddress::parse(vec![]).is_none());
    assert!(Multiaddress::parse(vec![0x04, 127, 0]).is_none());
    assert!(Multiaddress::parse(vec![0x06, 0x0f]).is_none());
    assert!(Multiaddress::parse(vec![0xff, 0xff, 0xff, 0xff, 0xff, 0xff]).is_none());
    assert!(Multiaddress::parse(vec![0x04, 127, 0, 0, 1, 0x06]).is_none());
}

#[test]
fn addresses_are_compared_by_their_bytes() {
    assert!(address(ws(1)).same_as(&address(ws(1)).clone()));
    assert!(!address(ws(1)).same_as(&address(ws(2))));
    assert_eq!(address(ws(1)), address(ws(1)));
    assert_ne!(address(ws(1)), address(ws(2)));
}

#[test]
fn a_set_holds_an_address_once() {
    let mut set = AddressSet::new();
    assert_eq!(set.len(), 0);
    assert!(set.get(0).is_none());
    assert!(!set.contains(&address(ws(1))));
    assert!(set.insert(address(ws(1))));
    assert!(set.insert(address(ws(2))));
    assert!(!set.insert(address(ws(1))));
    assert_eq!(set.len(), 2);
    assert!(set.contains(&address(ws(1))));
    assert!(set.contains(&address(ws(2))));
    assert!(!set.contains(&address(ws(3))));
    assert_eq!(set.get(0).expect("the first").to_bytes(), ws(1));
    assert_eq!(set.get(1).expect("the second").to_bytes(), ws(2));
    assert!(set.get(2).is_none());
}

#[test]
fn the_agent_learns_an_observed_address_once() {
    let mut agent = DiscoveryAgent::new("/relay/1".to_string());
    let learnt = agent.on_announcement(&announcement("/relay/1", ws(1)));
    assert_eq!(learnt.expect("a new address").to_bytes(), ws(1));
    assert_eq!(agent.addresses().len(), 1);
    assert!(agent.on_announcement(&announcement("/relay/1", ws(1))).is_none());
    assert_eq!(agent.addresses().len(), 1);
    let learnt = agent.on_announcement(&announcement("/relay/1", ws(2)));
    assert_eq!(learnt.expect("a new address").to_bytes(), ws(2));
    assert_eq!(agent.addresses().len(), 2);
}

#[test]
fn the_agent_passes_over_what_it_cannot_use() {
    let mut agent = DiscoveryAgent::new("/relay/1".to_string());
    assert!(agent.on_announcement(&announcement("/relay/2", ws(1))).is_none());
    assert!(agent.on_announcement(&announcement("", ws(1))).is_none());
    assert!(agent.on_announcement(&announcement("/relay/1", vec![])).is_none());
    assert!(agent.on_announcement(&announcement("/relay/1", vec![0x04, 1, 2])).is_none());
    assert_eq!(agent.addresses().len(), 0);
}

#[test]
fn the_agent_announces_what_it_knows() {
    let mut agent = DiscoveryAgent::new("/relay/1".to_string());
    assert!(agent.on_listen_address(address(loopback())));
    assert!(!agent.on_listen_address(address(loopback())));
    agent.on_announcement(&announcement("/relay/1", ws(9)));
    let said = agent.announce(&address(ws(5)));
    assert_eq!(said.protocol_version, "/relay/1");
    assert_eq!(said.listen_addrs, vec![loopback(), ws(9)]);
    assert_eq!(said.observed, ws(5));
}
