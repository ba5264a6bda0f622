use ronkathon::hashes::hmac::hmac_sha256;
use ronkathon::hashes::sha256::sha256;
use ronkathon::hashes::sha3::permute;
use ronkathon::hashes::sha3::sha3_256;
use ronkathon::signatures::bls::hkdf_extract;

fn hex(octets: &[u8]) -> String {
    octets.iter().map(|b| format!("{:02x}", b)).collect()
}

fn counting(n: usize) -> Vec<u8> {
    (0..n).map(|i| i as u8).collect()
}

#[test]
fn sha3_256_of_known_messages() {
    assert_eq!(
        hex(&sha3_256(b"")),
        "a7ffc6f8bf1ed76651c14756a061d662f580ff4de43b49fa82d80a4b80f8434a"
    );
    assert_eq!(
        hex(&sha3_256(b"abc")),
        "3a985da74fe225b2045c172d6bd390bd855f086e3e9d525b46bfe24511431532"
    );
}

#[test]
fn sha3_256_around_the_block_length() {
    assert_eq!(
        hex(&sha3_256(&counting(135))),
        "fded8fd9d6551c601eeb3b7c6bc5e5cfd8aad1d015b7e9aaa9c9b9475231d5e2"
    );
    assert_eq!(
        hex(&sha3_256(&counting(136))),
        "cf3ccff92480a29160c2d38317c430e14749bfee1788106957dfe73f8c4930e5"
    );
    assert_eq!(
        hex(&sha3_256(&counting(200))),
        "5f728f63bf5ee48c77f453c0490398fa645b8d4c4e56be9a41cfec344d6ca899"
    );
}

#[test]
fn the_permutation_of_the_zero_state() {
    let out = permute(vec![0u64; 25]);
    assert_eq!(out.len(), 25);
    assert_eq!(out[0], 0xf1258f7940e1dde7);
    assert_eq!(out[1], 0x84d5ccf933c0478a);
    assert_eq!(out[24], 0xeaf1ff7b5ceca249);
}

#[test]
fn sha256_of_known_messages() {
    assert_eq!(
        hex(&sha256(b"")),
        "e3b0c44298fc1c149afbf4c8996fb92427ae41e4649b934ca495991b7852b855"
    );
    assert_eq!(
        hex(&sha256(b"abc")),
        "ba7816bf8f01cfea414140de5dae2223b00361a396177a9cb410ff61f20015ad"
    );
}

#[test]
fn sha256_around_the_block_length() {
    assert_eq!(
        hex(&sha256(&counting(55))),
        "463eb28e72f82e0a96c0a4cc53690c571281131f672aa229e0d45ae59b598b59"
    );
    assert_eq!(
        hex(&sha256(&counting(56))),
        "da2ae4d6b36748f2a318f23e7ab1dfdf45acdc9d049bd80e59de82a60895f562"
    );
    assert_eq!(
        hex(&sha256(&counting(64))),
        "fdeab9acf3710362bd2658cdc9a29e8f9c757fcf9811603a8c447cd1d9151108"
    );
    assert_eq!(
        hex(&sha256(&counting(200))),
        "1901da1c9f699b48f6b2636e65cbf73abf99d0441ef67f5c540a42f7051dec6f"
    );
}

#[test]
fn hmac_sha256_of_known_inputs() {
    assert_eq!(
        hex(&hmac_sha256(&[0x0b; 20], b"Hi There")),
        "b0344c61d8db38535ca8afceaf0bf12b881dc200c9833da726e9376c2e32cff7"
    );
    assert_eq!(
        hex(&hmac_sha256(b"Jefe", b"what do ya want for nothing?")),
        "5bdcc146bf60754e6a042426089575c75a003f089d2739839dec58b964ec3843"
    );
    // a key longer than a block is hashed first
    assert_eq!(
        hex(&hmac_sha256(
            &[0xaa; 131],
            b"Test Using Larger Than Block-Size Key - Hash Key First"
        )),
        "60e431591ee0b67f0d8a26aacbf5b77f8e0bc6213728c5140546040f0ee37f54"
    );
}

#[test]
fn hkdf_extract_with_and_without_salt() {
    let ikm = [0x0bu8; 22];
    let salt: Vec<u8> = (0..13).collect();
    assert_eq!(
        hex(&hkdf_extract(&salt, &ikm)),
        "077709362c2e32df0ddc3f0dc47bba6390b6c73bb50f9c3122ec844ad7c2b3e5"
    );
    assert_eq!(
        hex(&hkdf_extract(b"salt", b"input keying material")),
        "45a39914db43cbfb9a3318dd20171ca16f1f7556063ab5438d1d837f24a79bf4"
    );
    // no salt stands for 32 zeros
    assert_eq!(
        hex(&hkdf_extract(&[], b"input keying material")),
        "364291161024cea0e8a5cf3cbf0ec6230e36f2bf398b574132e6761dd8d0352a"
    );
    assert_eq!(
        hkdf_extract(&[], b"input keying material"),
        hkdf_extract(&[0u8; 32], b"input keying material")
    );
}
