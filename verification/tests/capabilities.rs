use wave_link_rpc::{Capabilities, ReadCapability, WriteCapability};

#[test]
fn read_and_write_capabilities_are_independent() {
    let capabilities = Capabilities::new(vec![ReadCapability::Channels], vec![]);
    assert!(capabilities.can_read(ReadCapability::Channels));
    assert!(!capabilities.can_write(WriteCapability::Volume));
}

#[test]
fn capabilities_are_sets() {
    let one = Capabilities::new(
        vec![ReadCapability::Mixes, ReadCapability::Channels, ReadCapability::Mixes],
        vec![WriteCapability::Routing],
    );
    let two = Capabilities::new(
        vec![ReadCapability::Channels, ReadCapability::Mixes],
        vec![WriteCapability::Routing, WriteCapability::Routing],
    );
    assert_eq!(one, two);
    assert_eq!(one.clone(), two);
    assert_ne!(one, Capabilities::default());
    let routing = vec![WriteCapability::Routing];
    assert_ne!(one, Capabilities::new(vec![ReadCapability::Channels], routing));
    assert!(!Capabilities::default().can_read(ReadCapability::Application));
}
