use cch24::address::{produce_dest, produce_dest_v6, recover_key, recover_key_v6};

#[test]
fn dest_adds_octets() {
    assert_eq!(produce_dest([10, 0, 0, 0], [1, 2, 3, 255]), [11, 2, 3, 255]);
}

#[test]
fn dest_wraps_around() {
    assert_eq!(produce_dest([128, 128, 33, 200], [255, 0, 255, 100]), [127, 128, 32, 44]);
}

#[test]
fn key_subtracts_octets() {
    assert_eq!(recover_key([10, 0, 0, 0], [11, 2, 3, 255]), [1, 2, 3, 255]);
}

#[test]
fn key_wraps_around() {
    assert_eq!(recover_key([128, 128, 33, 200], [127, 128, 32, 44]), [255, 0, 255, 100]);
}

#[test]
fn key_recovery_undoes_dest() {
    let from = [192, 168, 0, 1];
    let key = [250, 7, 0, 13];
    assert_eq!(recover_key(from, produce_dest(from, key)), key);
    let to = [1, 1, 1, 1];
    assert_eq!(produce_dest(from, recover_key(from, to)), to);
}

#[test]
fn dest_v6_xors_octets() {
    let from = [0xfe, 0x80, 0, 0, 0, 0, 0, 0, 0, 0, 0, 0, 0, 0, 0, 1];
    let key = [0x5, 0x6, 0, 0, 0, 0, 0, 0, 0, 0, 0, 0, 0, 0, 0xff, 0xff];
    let dest = produce_dest_v6(from, key);
    assert_eq!(dest, [0xfb, 0x86, 0, 0, 0, 0, 0, 0, 0, 0, 0, 0, 0, 0, 0xff, 0xfe]);
    assert_eq!(recover_key_v6(from, dest), key);
    assert_eq!(recover_key_v6(dest, from), key);
}
