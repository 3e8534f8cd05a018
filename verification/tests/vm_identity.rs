use vzctl::vm::{identity_from_entropy, render_meta_data};

#[test]
fn identity_is_formatted_from_entropy() {
    let random: Vec<u8> = (0u8..32).collect();
    let extra = vec![0xaa, 0xbb, 0xcc, 0xdd, 0xee];
    let identity = identity_from_entropy("demo/web.app", 2, &random, &extra);
    assert_eq!(identity.instance_id, "00010203-0405-4607-8809-0a0b0c0d0e0f");
    assert_eq!(identity.mac_addresses, vec!["02:11:12:13:14:15", "02:aa:bb:cc:dd:ee"]);
    assert_eq!(identity.fqdn, "web.app");
    assert_eq!(identity.hostname, "web");
    assert_eq!(
        render_meta_data(&identity),
        "instance-id: 00010203-0405-4607-8809-0a0b0c0d0e0f\nlocal-hostname: web\n"
    );
}

#[test]
fn identity_sets_version_bits_and_gives_one_nic_at_least() {
    let random = vec![0xffu8; 32];
    let identity = identity_from_entropy("vm1", 0, &random, &[]);
    assert_eq!(identity.instance_id, "ffffffff-ffff-4fff-bfff-ffffffffffff");
    assert_eq!(identity.mac_addresses, vec!["02:ff:ff:ff:ff:ff"]);
    assert_eq!(identity.hostname, "vm1");
}
