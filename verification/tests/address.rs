use udp_relay::address::{Address, PORTS_PER_HOST};

#[test]
fn octets_make_the_big_endian_host() {
    let address = Address::from_octets(127, 0, 0, 1, 3000);
    assert_eq!(address.host, 0x7f00_0001);
    assert_eq!(address.port, 3000);
    assert_eq!(address, Address { host: 2_130_706_433, port: 3000 });
}

#[test]
fn octets_come_back_in_order() {
    let address = Address::from_octets(192, 168, 1, 42, 9);
    assert_eq!(address.octets(), [192, 168, 1, 42]);
    assert_eq!(Address { host: 0, port: 0 }.octets(), [0, 0, 0, 0]);
    assert_eq!(Address { host: u32::MAX, port: 1 }.octets(), [255, 255, 255, 255]);
}

#[test]
fn key_is_host_times_ports_plus_port() {
    assert_eq!(PORTS_PER_HOST, 65536);
    assert_eq!(Address { host: 0, port: 0 }.key(), 0);
    assert_eq!(Address { host: 0, port: 65535 }.key(), 65535);
    assert_eq!(Address { host: 1, port: 0 }.key(), 65536);
    assert_eq!(Address { host: 0x7f00_0001, port: 3000 }.key(), 0x7f00_0001 * 65536 + 3000);
    assert_eq!(Address { host: u32::MAX, port: u16::MAX }.key(), (1u64 << 48) - 1);
}

#[test]
fn key_reads_back_as_the_address() {
    for address in [
        Address { host: 0, port: 0 },
        Address { host: 0x7f00_0001, port: 3000 },
        Address { host: u32::MAX, port: u16::MAX },
        Address { host: 1, port: 65535 },
    ] {
        assert_eq!(Address::from_key(address.key()), Some(address));
    }
}

#[test]
fn a_number_past_the_last_key_is_no_address() {
    assert_eq!(Address::from_key(1u64 << 48), None);
    assert_eq!(Address::from_key(u64::MAX), None);
    assert_eq!(
        Address::from_key((1u64 << 48) - 1),
        Some(Address { host: u32::MAX, port: u16::MAX })
    );
}

#[test]
fn same_host_other_port_is_another_address() {
    let a = Address::from_octets(10, 0, 0, 1, 4000);
    let b = Address::from_octets(10, 0, 0, 1, 4001);
    assert_ne!(a, b);
    assert_ne!(a.key(), b.key());
}
