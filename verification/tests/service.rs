use key_derive::config::Config;
use key_derive::encoding::{decimal_string, encode, u32_to_be_bytes};
use key_derive::service::{check_public_key, derive_response, CheckOutcome};

const CHILD_0_KEY: &str = "586209a6925cf78289e8413b298cb086f6a25b6e5cb1feb12e7bf6690a75c742";
const CHILD_0_CHAIN: &str = "7808fa0716e22b057fc08405083a6ae1a0d5b9c2e4195c38a266a75f64cb11f0";
const CHILD_0_PUBLIC: &str = "032a32eeeb8628dd5460a9a0cdd6585ae50640132c0fff806b1630232972c8ec50";
const CHILD_1_PUBLIC: &str = "02a2f922e753e07ccedad4689759fa5a125449bc37af10811adc009914cfa30323";
const CHILD_4_PUBLIC: &str = "022775de0855077b9ea71cabe69b8558b3e8019f31f36b528bbe75e69e84085c2c";

fn example_config() -> Config {
    Config::new([0x01; 32], [0x02; 32])
}

#[test]
fn derive_response_lists_index_key_chain_code_and_public_key() {
    let text = derive_response(&example_config(), 0).unwrap();
    assert_eq!(
        text,
        format!(
            "your_index=0\nchild_key={}\nchild_chain_code={}\nchild_public_key={}",
            CHILD_0_KEY, CHILD_0_CHAIN, CHILD_0_PUBLIC
        )
    );
    assert!(derive_response(&Config::new([0; 32], [2; 32]), 0).is_none());
}

#[test]
fn main_it_check_success() {
    let outcome = check_public_key(&example_config(), 1, 1, CHILD_1_PUBLIC).unwrap();
    assert_eq!(outcome, CheckOutcome::Match);
    assert_eq!(outcome.code(), "0");
}

#[test]
fn main_it_check_fail() {
    // Index 4 has not been handed out when only index 1 has.
    let outcome = check_public_key(&example_config(), 4, 1, CHILD_1_PUBLIC).unwrap();
    assert_eq!(outcome, CheckOutcome::NotIssued);
    assert_eq!(outcome.code(), "2");
}

#[test]
fn check_reports_mismatch_for_another_index_key() {
    let outcome = check_public_key(&example_config(), 1, 10, CHILD_4_PUBLIC).unwrap();
    assert_eq!(outcome, CheckOutcome::Mismatch);
    assert_eq!(outcome.code(), "1");
    let outcome = check_public_key(&example_config(), 4, 10, CHILD_4_PUBLIC).unwrap();
    assert_eq!(outcome, CheckOutcome::Match);
    // Upper-case hex is not the key's text.
    let outcome = check_public_key(&example_config(), 4, 10, &CHILD_4_PUBLIC.to_uppercase()).unwrap();
    assert_eq!(outcome, CheckOutcome::Mismatch);
    assert!(check_public_key(&Config::new([0; 32], [2; 32]), 0, 10, CHILD_0_PUBLIC).is_none());
    assert_eq!(
        check_public_key(&Config::new([0; 32], [2; 32]), 11, 10, CHILD_0_PUBLIC),
        Some(CheckOutcome::NotIssued)
    );
}

#[test]
fn served_public_key_is_accepted_back() {
    let config = example_config();
    for index in [0u32, 3, 9] {
        let text = derive_response(&config, index).unwrap();
        let served = text.rsplit("child_public_key=").next().unwrap();
        assert_eq!(check_public_key(&config, index, 9, served), Some(CheckOutcome::Match));
    }
}

#[test]
fn encode_is_lowercase_hex() {
    assert_eq!(encode(&[]), "");
    assert_eq!(encode(&[0xbe, 0xef, 0x00, 0x0a]), "beef000a");
    let all: Vec<u8> = (0..=255u8).collect();
    assert_eq!(encode(&all), hex::encode(&all));
}

#[test]
fn decimal_string_writes_u32() {
    for n in [0u32, 7, 10, 99, 100, 12345, u32::MAX] {
        assert_eq!(decimal_string(n), n.to_string());
    }
}

#[test]
fn u32_to_be_bytes_matches_std() {
    for n in [0u32, 1, 0x0102_0304, 0xdead_beef, u32::MAX] {
        assert_eq!(u32_to_be_bytes(n), n.to_be_bytes());
    }
}

#[test]
fn main_it_get() {
    // The first index handed out after the counter is reset is 0.
    let text = derive_response(&example_config(), 0).unwrap();
    assert!(text.starts_with("your_index=0\n"));
    let tail: String = text.chars().rev().take(30).collect();
    let expected: String = CHILD_0_PUBLIC.chars().rev().take(30).collect();
    assert_eq!(tail, expected);
    let text = derive_response(&example_config(), 123).unwrap();
    assert!(text.starts_with("your_index=123\nchild_key="));
}
