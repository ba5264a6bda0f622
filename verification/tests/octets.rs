use ronkathon::signatures::octets::i2osp;
use ronkathon::signatures::octets::os2ip;

#[test]
fn i2osp_pads_on_the_left() {
    assert_eq!(i2osp(0, 0).unwrap(), Vec::<u8>::new());
    assert_eq!(i2osp(0, 3).unwrap(), vec![0, 0, 0]);
    assert_eq!(i2osp(1, 1).unwrap(), vec![1]);
    assert_eq!(i2osp(255, 1).unwrap(), vec![255]);
    assert_eq!(i2osp(256, 2).unwrap(), vec![1, 0]);
    assert_eq!(i2osp(0x0102_03, 4).unwrap(), vec![0, 1, 2, 3]);
    assert_eq!(i2osp(65535, 2).unwrap(), vec![255, 255]);
    assert_eq!(i2osp(128, 2).unwrap(), vec![0, 128]);
}

#[test]
fn i2osp_takes_lengths_beyond_a_word() {
    let mut expected = vec![0u8; 10];
    expected[9] = 0xef;
    expected[8] = 0xbe;
    assert_eq!(i2osp(0xbeef, 10).unwrap(), expected);
    let all = i2osp(usize::MAX, 9).unwrap();
    assert_eq!(all[0], 0);
    assert!(all[1..].iter().all(|b| *b == 0xff));
}

#[test]
fn i2osp_refuses_what_does_not_fit() {
    assert_eq!(i2osp(1, 0).unwrap_err(), "Integer too large to encode in 0 octets");
    assert_eq!(i2osp(256, 1).unwrap_err(), "Integer too large to encode in 1 octets");
    assert_eq!(i2osp(65536, 2).unwrap_err(), "Integer too large to encode in 2 octets");
    assert_eq!(i2osp(usize::MAX, 3).unwrap_err(), "Integer too large to encode in 3 octets");
    assert!(i2osp(65535, 2).is_ok());
}

#[test]
fn os2ip_reads_big_endian() {
    assert_eq!(os2ip(&[]).unwrap(), 0);
    assert_eq!(os2ip(&[7]).unwrap(), 7);
    assert_eq!(os2ip(&[1, 0]).unwrap(), 256);
    assert_eq!(os2ip(&[0, 0, 1, 2]).unwrap(), 258);
    assert_eq!(os2ip(&[0xff; 8]).unwrap() as u64, u64::MAX);
}

#[test]
fn os2ip_drops_what_does_not_fit_a_word() {
    let mut long = vec![0xabu8];
    long.extend_from_slice(&[0u8; 7]);
    long.push(5);
    // nine octets: the first falls off a 64-bit word
    assert_eq!(os2ip(&long).unwrap() as u64, 5);
}

#[test]
fn octets_round_trip() {
    for x in [0usize, 1, 255, 256, 65535, 65536, 0xdead_beef] {
        let octets = i2osp(x, 8).unwrap();
        assert_eq!(octets.len(), 8);
        assert_eq!(os2ip(&octets).unwrap(), x);
    }
    for octets in [vec![0u8, 1], vec![9, 8, 7], vec![0, 0, 0]] {
        let x = os2ip(&octets).unwrap();
        assert_eq!(i2osp(x, octets.len()).unwrap(), octets);
    }
}
