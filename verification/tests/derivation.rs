use hmac::Mac;
use key_derive::config::{root_bytes_from_str, Config, ConfigError};
use key_derive::derive_child::{
    derive_child_key, generate_public_key, serialize_private_key, split_derivation_tag,
    try_derive_child_key,
};
use key_derive::secp::SecretKey;

const ROOT_KEY: [u8; 32] = [0x01; 32];
const ROOT_CHAIN_CODE: [u8; 32] = [0x02; 32];

const CHILD_0_KEY: &str = "586209a6925cf78289e8413b298cb086f6a25b6e5cb1feb12e7bf6690a75c742";
const CHILD_0_CHAIN: &str = "7808fa0716e22b057fc08405083a6ae1a0d5b9c2e4195c38a266a75f64cb11f0";
const CHILD_0_PUBLIC: &str = "032a32eeeb8628dd5460a9a0cdd6585ae50640132c0fff806b1630232972c8ec50";
const CHILD_1_KEY: &str = "74fe6bd9518c23f088c4a71711db0e1d6c44f81bc50604e91981c6cf67defda4";
const CHILD_1_CHAIN: &str = "b903d8172806db65595747f9d1ee93f0779a113643f773c791eb9ef1c42f1b86";
const CHILD_1_PUBLIC: &str = "02a2f922e753e07ccedad4689759fa5a125449bc37af10811adc009914cfa30323";
const CURVE_ORDER: [u8; 32] = [
    0xff, 0xff, 0xff, 0xff, 0xff, 0xff, 0xff, 0xff, 0xff, 0xff, 0xff, 0xff, 0xff, 0xff, 0xff, 0xfe,
    0xba, 0xae, 0xdc, 0xe6, 0xaf, 0x48, 0xa0, 0x3b, 0xbf, 0xd2, 0x5e, 0x8c, 0xd0, 0x36, 0x41, 0x41,
];

fn example_config() -> Config {
    Config::new(ROOT_KEY, ROOT_CHAIN_CODE)
}

fn hex(bytes: &[u8]) -> String {
    bytes.iter().map(|b| format!("{:02x}", b)).collect()
}

#[test]
fn it_works() {}

#[test]
fn show_config_with_root_public() {
    let child = example_config().derive_child_key(0);
    assert_eq!(child.2.to_string(), CHILD_0_PUBLIC);
}

#[test]
fn show_child_key_1() {
    let child = example_config().derive_child_key(1);
    assert_eq!(child.2.to_string(), CHILD_1_PUBLIC);
}

#[test]
fn config_child_key_and_chain_code_are_the_hmac_halves() {
    let (key, code, public) = example_config().derive_child_key(0);
    assert_eq!(hex(&key.secret_bytes()), CHILD_0_KEY);
    assert_eq!(hex(&code), CHILD_0_CHAIN);
    assert_eq!(hex(&public.serialize()), CHILD_0_PUBLIC);
    let (key, code, _) = example_config().derive_child_key(1);
    assert_eq!(hex(&key.secret_bytes()), CHILD_1_KEY);
    assert_eq!(hex(&code), CHILD_1_CHAIN);
}

#[test]
fn derivation_matches_the_outside_crates() {
    for index in [0u32, 1, 2, 77, u32::MAX] {
        let mut mac = hmac::Hmac::<sha2::Sha512>::new_from_slice(&ROOT_CHAIN_CODE).unwrap();
        let mut message = ROOT_KEY.to_vec();
        message.extend_from_slice(&index.to_be_bytes());
        mac.update(&message);
        let tag = mac.finalize().into_bytes().to_vec();
        let expected_key = secp256k1::SecretKey::from_slice(&tag[..32]).unwrap();
        let expected_public =
            secp256k1::PublicKey::from_secret_key(&secp256k1::Secp256k1::new(), &expected_key);
        let (key, code, public) = example_config().derive_child_key(index);
        assert_eq!(key.secret_bytes().to_vec(), tag[..32].to_vec());
        assert_eq!(code.to_vec(), tag[32..].to_vec());
        assert_eq!(public.to_string(), expected_public.to_string());
        assert_eq!(public.serialize(), expected_public.serialize());
    }
}

#[test]
fn derivation_is_repeatable() {
    let config = example_config();
    let first = config.derive_child_key(5);
    let second = config.derive_child_key(5);
    assert_eq!(first.0.secret_bytes(), second.0.secret_bytes());
    assert_eq!(first.1, second.1);
    assert_eq!(first.2.serialize(), second.2.serialize());
    let other = config.derive_child_key(6);
    assert_ne!(first.0.secret_bytes(), other.0.secret_bytes());
}

#[test]
fn free_derive_child_key_agrees_with_config() {
    let (key, code) = derive_child_key(&ROOT_KEY, &ROOT_CHAIN_CODE, 1);
    assert_eq!(hex(&key.secret_bytes()), CHILD_1_KEY);
    assert_eq!(hex(&code), CHILD_1_CHAIN);
    let (key, code) = try_derive_child_key(&ROOT_KEY, &ROOT_CHAIN_CODE, 0).unwrap();
    assert_eq!(hex(&key.secret_bytes()), CHILD_0_KEY);
    assert_eq!(hex(&code), CHILD_0_CHAIN);
}

#[test]
fn try_derive_refuses_invalid_root_keys() {
    assert!(try_derive_child_key(&[0u8; 32], &ROOT_CHAIN_CODE, 0).is_none());
    assert!(try_derive_child_key(&CURVE_ORDER, &ROOT_CHAIN_CODE, 0).is_none());
    assert!(try_derive_child_key(&[1u8; 31], &ROOT_CHAIN_CODE, 0).is_none());
    assert!(Config::new([0u8; 32], ROOT_CHAIN_CODE).try_derive_child_key(3).is_none());
    let (key, code, public) = example_config().try_derive_child_key(0).unwrap();
    assert_eq!(hex(&key.secret_bytes()), CHILD_0_KEY);
    assert_eq!(hex(&code), CHILD_0_CHAIN);
    assert_eq!(public.to_string(), CHILD_0_PUBLIC);
}

#[test]
fn serialize_private_key_appends_big_endian_index() {
    let key = SecretKey::from_slice(&ROOT_KEY).unwrap();
    let serialized = serialize_private_key(&key, 0x0102_0304);
    let mut expected = ROOT_KEY.to_vec();
    expected.extend_from_slice(&[1, 2, 3, 4]);
    assert_eq!(serialized, expected);
    let serialized = serialize_private_key(&key, u32::MAX);
    assert_eq!(serialized.len(), 36);
    assert_eq!(&serialized[32..], &u32::MAX.to_be_bytes());
}

#[test]
fn secret_key_from_slice_checks_range_and_length() {
    assert!(SecretKey::from_slice(&[0u8; 32]).is_none());
    assert!(SecretKey::from_slice(&CURVE_ORDER).is_none());
    assert!(SecretKey::from_slice(&[0xffu8; 32]).is_none());
    assert!(SecretKey::from_slice(&[1u8; 31]).is_none());
    assert!(SecretKey::from_slice(&[1u8; 33]).is_none());
    let mut below_order = CURVE_ORDER;
    below_order[31] -= 1;
    assert_eq!(SecretKey::from_slice(&below_order).unwrap().secret_bytes(), below_order);
    let mut one = [0u8; 32];
    one[31] = 1;
    assert_eq!(SecretKey::from_slice(&one).unwrap().secret_bytes(), one);
}

#[test]
fn public_key_of_one_is_the_generator() {
    let mut one = [0u8; 32];
    one[31] = 1;
    let key = SecretKey::from_slice(&one).unwrap();
    assert_eq!(
        generate_public_key(&key).to_string(),
        "0279be667ef9dcbbac55a06295ce870b07029bfcdb2dce28d959f2815b16f81798"
    );
    let root = SecretKey::from_slice(&ROOT_KEY).unwrap();
    assert_eq!(
        generate_public_key(&root).to_string(),
        "031b84c5567b126440995d3ed5aaba0565d71e1834604819ff9c17f5e9d5dd078f"
    );
}

#[test]
fn split_derivation_tag_halves() {
    let mut tag = [0u8; 64];
    for (i, b) in tag.iter_mut().enumerate() {
        *b = i as u8 + 1;
    }
    let (key, code) = split_derivation_tag(&tag).unwrap();
    assert_eq!(key.secret_bytes().to_vec(), tag[..32].to_vec());
    assert_eq!(code.to_vec(), tag[32..].to_vec());
    let zero_head = [0u8; 64];
    assert!(split_derivation_tag(&zero_head).is_none());
    let mut order_head = [7u8; 64];
    order_head[..32].copy_from_slice(&CURVE_ORDER);
    assert!(split_derivation_tag(&order_head).is_none());
}

#[test]
fn root_bytes_need_exactly_32_bytes_of_text() {
    let text = "0123456789abcdef0123456789abcdef";
    assert_eq!(root_bytes_from_str(text).unwrap().to_vec(), text.as_bytes().to_vec());
    assert_eq!(root_bytes_from_str("0123456789abcdef0123456789abcde"), Err(ConfigError::InvalidByteArraySize));
    assert_eq!(root_bytes_from_str("0123456789abcdef0123456789abcdef0"), Err(ConfigError::InvalidByteArraySize));
    assert_eq!(root_bytes_from_str(""), Err(ConfigError::InvalidByteArraySize));
    // Sixteen two-byte characters make 32 bytes.
    let wide = "éééééééééééééééé";
    assert_eq!(root_bytes_from_str(wide).unwrap().to_vec(), wide.as_bytes().to_vec());
}

#[test]
fn config_keeps_its_root_material() {
    let config = example_config();
    assert_eq!(config.root_key_bytes(), ROOT_KEY);
    assert_eq!(config.root_chain_code(), ROOT_CHAIN_CODE);
}

#[test]
fn a_child_derives_grandchildren() {
    let (child, child_code, _) = example_config().derive_child_key(0);
    let grandchild = try_derive_child_key(&child.secret_bytes(), &child_code, 0).unwrap();
    let again = Config::new(child.secret_bytes(), child_code).derive_child_key(0);
    assert_eq!(grandchild.0.secret_bytes(), again.0.secret_bytes());
    assert_eq!(grandchild.1, again.1);
    assert_ne!(grandchild.0.secret_bytes(), child.secret_bytes());
}
