use gcm_ghash::block::{Blocks, InvalidLength, KeyValue, Xi};
use gcm_ghash::cpu::Neon;
use gcm_ghash::dispatch::{DynKey, Implementation};
use gcm_ghash::fallback::FallbackKey;
use gcm_ghash::gf128::multiply;
use gcm_ghash::neon::Key;

// GCM test case 2 (zero AES key, zero IV, one zero plaintext block).
const H: u128 = 0x66e94bd4ef8a2c3b884cfa59ca342b2e;
const C: u128 = 0x0388dace60b6a392f328c2b971b2fe78;
const LEN_BLOCK: u128 = 0x80;
const X1: u128 = 0x5e2ec746917062882c85b0685353deb7;
// The tag of test case 2 XOR E(K, Y0), the tag of test case 1.
const GHASH_CASE2: u128 = 0xab6e47d42cec13bdf53a67b21257bddf ^ 0x58e2fccefa7e3061367f1d57a4e7455a;

fn both_keys(h: u128) -> Vec<DynKey> {
    vec![
        DynKey::new(KeyValue(h), Neon::detected(true)),
        DynKey::new(KeyValue(h), None),
    ]
}

fn bytes_of(blocks: &[u128]) -> Vec<u8> {
    let mut out = Vec::new();
    for b in blocks {
        out.extend_from_slice(&b.to_be_bytes());
    }
    out
}

fn pseudo_random_bytes(n: usize, seed: u64) -> Vec<u8> {
    let mut s = seed;
    (0..n)
        .map(|_| {
            s = s.wrapping_mul(6364136223846793005).wrapping_add(1442695040888963407);
            (s >> 56) as u8
        })
        .collect()
}

#[test]
fn known_answer_single_block() {
    for key in both_keys(H) {
        let mut xi = Xi::zero();
        key.update_block(&mut xi, C.to_be_bytes());
        assert_eq!(xi, Xi(X1));
    }
}

#[test]
fn known_answer_two_blocks() {
    assert_eq!(GHASH_CASE2, 0xf38cbb1ad69223dcc3457ae5b6b0f885);
    let data = bytes_of(&[C, LEN_BLOCK]);
    for key in both_keys(H) {
        let mut xi = Xi::zero();
        assert_eq!(key.update_bytes(&mut xi, &data), Ok(()));
        assert_eq!(xi, Xi(GHASH_CASE2));

        let mut xi = Xi::zero();
        let blocks = Blocks::new(&data).unwrap();
        key.update_blocks(&mut xi, &blocks);
        assert_eq!(xi.to_bytes(), GHASH_CASE2.to_be_bytes());

        let mut xi = Xi::zero();
        key.update_block(&mut xi, C.to_be_bytes());
        key.update_block(&mut xi, LEN_BLOCK.to_be_bytes());
        assert_eq!(xi, Xi(GHASH_CASE2));
    }
}

#[test]
fn known_answer_from_byte_subkey() {
    let value = KeyValue::from_bytes(H.to_be_bytes());
    assert_eq!(value, KeyValue(H));
    let key = Key::new(value, Neon::detected(true).unwrap());
    let mut xi = Xi::zero();
    key.update_block(&mut xi, C.to_be_bytes());
    assert_eq!(xi, Xi(X1));
}

#[test]
fn xor_before_multiply() {
    let a: u128 = 0x0123456789abcdeffedcba9876543210;
    let wrong_order = multiply(X1, H) ^ a;
    assert_eq!(wrong_order, 0x54c1a2772d9c9eea54b9d793f7b8ee2f);
    for key in both_keys(H) {
        let mut xi = Xi(X1);
        key.update_block(&mut xi, a.to_be_bytes());
        assert_ne!(xi.0, wrong_order);
        assert_eq!(xi.0, multiply(X1 ^ a, H));
        assert_eq!(xi.0, 0x9733163117c2447848e8edf78b882154);
    }
}

#[test]
fn zero_block_multiplies_by_h() {
    for key in both_keys(H) {
        let mut xi = Xi(X1);
        key.update_block(&mut xi, [0u8; 16]);
        assert_ne!(xi, Xi(X1));
        assert_eq!(xi.0, multiply(X1, H));
        assert_eq!(xi.0, 0x55e2e710a4375305aa656d0b81ecdc3f);
    }
}

#[test]
fn zero_block_from_zero_state_stays_zero() {
    for key in both_keys(H) {
        let mut xi = Xi::zero();
        key.update_block(&mut xi, [0u8; 16]);
        assert_eq!(xi, Xi::zero());
    }
}

#[test]
fn multiply_by_one_and_by_zero() {
    // The element 1 has its x^0 coefficient in the most significant bit.
    let one: u128 = 1 << 127;
    assert_eq!(multiply(one, H), H);
    assert_eq!(multiply(H, one), H);
    assert_eq!(multiply(0, H), 0);
    assert_eq!(multiply(H, 0), 0);
}

#[test]
fn multiply_is_commutative_on_samples() {
    assert_eq!(multiply(C, H), multiply(H, C));
    assert_eq!(multiply(C, H), X1);
}

#[test]
fn empty_run_is_rejected() {
    for key in both_keys(H) {
        let mut xi = Xi(X1);
        assert_eq!(key.update_bytes(&mut xi, &[]), Err(InvalidLength::Empty));
        assert_eq!(xi, Xi(X1));
    }
    assert!(matches!(Blocks::new(&[]), Err(InvalidLength::Empty)));
}

#[test]
fn unaligned_run_is_rejected() {
    for n in [1usize, 15, 17, 31, 33] {
        let data = vec![0xa5u8; n];
        for key in both_keys(H) {
            let mut xi = Xi(X1);
            assert_eq!(key.update_bytes(&mut xi, &data), Err(InvalidLength::Unaligned));
            assert_eq!(xi, Xi(X1));
        }
        assert!(matches!(Blocks::new(&data), Err(InvalidLength::Unaligned)));
    }
}

#[test]
fn aligned_run_is_accepted() {
    let data = vec![0u8; 48];
    let blocks = Blocks::new(&data).unwrap();
    assert_eq!(blocks.len(), 3);
    assert_eq!(blocks.block(0), 0);
}

#[test]
fn blocks_read_big_endian() {
    let data: Vec<u8> = (0u8..32).collect();
    let blocks = Blocks::new(&data).unwrap();
    assert_eq!(blocks.len(), 2);
    assert_eq!(blocks.block(0), 0x000102030405060708090a0b0c0d0e0f);
    assert_eq!(blocks.block(1), 0x101112131415161718191a1b1c1d1e1f);
}

#[test]
fn backends_agree() {
    for seed in 0..8u64 {
        let h_bytes = pseudo_random_bytes(16, seed);
        let mut hb = [0u8; 16];
        hb.copy_from_slice(&h_bytes);
        let value = KeyValue::from_bytes(hb);
        let data = pseudo_random_bytes(16 * (1 + seed as usize), seed + 100);
        let start = Xi(0x0f0e0d0c0b0a09080706050403020100 ^ seed as u128);

        let neon = Key::new(value, Neon::detected(true).unwrap());
        let fallback = FallbackKey::new(value);
        let blocks = Blocks::new(&data).unwrap();

        let mut xi_neon = start;
        neon.update_blocks(&mut xi_neon, &blocks);
        let mut xi_fallback = start;
        fallback.update_blocks(&mut xi_fallback, &blocks);
        assert_eq!(xi_neon, xi_fallback);

        let mut xi_single = start;
        for chunk in data.chunks(16) {
            let mut a = [0u8; 16];
            a.copy_from_slice(chunk);
            fallback.update_block(&mut xi_single, a);
        }
        assert_eq!(xi_single, xi_fallback);
    }
}

#[test]
fn split_absorption_matches_one_call() {
    let data = pseudo_random_bytes(16 * 5, 7);
    for key in both_keys(H) {
        let mut whole = Xi::zero();
        key.update_bytes(&mut whole, &data).unwrap();
        for cut in 1..5 {
            let mut parts = Xi::zero();
            key.update_bytes(&mut parts, &data[..16 * cut]).unwrap();
            key.update_bytes(&mut parts, &data[16 * cut..]).unwrap();
            assert_eq!(parts, whole);
        }
    }
}

#[test]
fn dispatch_prefers_neon_when_present() {
    let key = DynKey::new(KeyValue(H), Neon::detected(true));
    assert_eq!(key.implementation(), Implementation::Neon);
}

#[test]
fn dispatch_falls_back_without_token() {
    assert!(Neon::detected(false).is_none());
    let key = DynKey::new(KeyValue(H), Neon::detected(false));
    assert_eq!(key.implementation(), Implementation::Fallback);
}

#[test]
fn xi_bytes_round_trip() {
    let bytes: [u8; 16] = [
        0x5e, 0x2e, 0xc7, 0x46, 0x91, 0x70, 0x62, 0x88, 0x2c, 0x85, 0xb0, 0x68, 0x53, 0x53, 0xde,
        0xb7,
    ];
    let xi = Xi::from_bytes(bytes);
    assert_eq!(xi, Xi(X1));
    assert_eq!(xi.to_bytes(), bytes);
}
