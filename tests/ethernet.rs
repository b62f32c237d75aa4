use rawget::ethernet::MacAddress;

#[test]
fn generated_addresses_are_local_unicast() {
    for _ in 0..10_000 {
        let mac = MacAddress::generate();
        assert!(mac.is_local());
        assert!(mac.is_unicast());
    }
}

#[test]
fn from_random_forces_the_two_bits() {
    let mac = MacAddress::from_random([0xff; 6]);
    assert_eq!(mac.octets(), [0xfe, 0xff, 0xff, 0xff, 0xff, 0xff]);
    let mac = MacAddress::from_random([0x00; 6]);
    assert_eq!(mac.octets(), [0x02, 0, 0, 0, 0, 0]);
    assert!(mac.is_local() && mac.is_unicast());
}

#[test]
fn from_random_keeps_other_octets() {
    let mac = MacAddress::from_random([0x11, 0x22, 0x33, 0x44, 0x55, 0x66]);
    assert_eq!(mac.octets(), [0x12, 0x22, 0x33, 0x44, 0x55, 0x66]);
}

#[test]
fn text_is_lowercase_colon_hex() {
    let mac = MacAddress::from_random([0x00; 6]);
    assert_eq!(mac.to_string(), "02:00:00:00:00:00");
    let mac = MacAddress::from_random([0xab, 0xcd, 0xef, 0x01, 0x23, 0x45]);
    assert_eq!(mac.to_string(), "aa:cd:ef:01:23:45");
}

#[test]
fn generated_text_has_canonical_shape() {
    let text = MacAddress::generate().to_string();
    assert_eq!(text.len(), 17);
    for (i, c) in text.chars().enumerate() {
        if i % 3 == 2 {
            assert_eq!(c, ':');
        } else {
            assert!(c.is_ascii_hexdigit() && !c.is_ascii_uppercase());
        }
    }
}
