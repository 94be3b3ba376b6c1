//! What the key service answers: the text served for a newly issued index,
//! and the verdict on a public key presented for an index.

use vstd::prelude::*;
use crate::config::Config;
use crate::encoding::{decimal, decimal_string, digits_value, encode, hex_lower, lemma_decimal_reads_back, lemma_hex_lower_injective};

verus! {

/// The text served for a derived child: its index in decimal, then the
/// lowercase hexadecimal of the child secret key, chain code and compressed
/// public key, one `name=value` per line.
pub open spec fn derive_response_text(
    index: u32,
    child_key: Seq<u8>,
    child_chain_code: Seq<u8>,
    child_public_key: Seq<u8>,
) -> Seq<char> {
    "your_index="@ + decimal(index as nat) + "\nchild_key="@ + hex_lower(child_key)
        + "\nchild_chain_code="@ + hex_lower(child_chain_code) + "\nchild_public_key="@
        + hex_lower(child_public_key)
}

/// Where each value stands in the served text: after the 11 characters
/// `your_index=` comes the index in decimal digits, then, each after its
/// label, the 64 hex digits of the child key, the 64 of the chain code and,
/// at the very end, the 66 of the public key.
pub proof fn lemma_response_layout(
    index: u32,
    child_key: Seq<u8>,
    child_chain_code: Seq<u8>,
    child_public_key: Seq<u8>,
)
    requires
        child_key.len() == 32,
        child_chain_code.len() == 32,
        child_public_key.len() == 33,
    ensures
        ({
            let text = derive_response_text(index, child_key, child_chain_code, child_public_key);
            let d = decimal(index as nat).len() as int;
            &&& text.len() == 252 + d
            &&& text.subrange(0, 11) == "your_index="@
            &&& digits_value(text.subrange(11, 11 + d)) == index
            &&& text.subrange(22 + d, 86 + d) == hex_lower(child_key)
            &&& text.subrange(104 + d, 168 + d) == hex_lower(child_chain_code)
            &&& text.subrange(186 + d, 252 + d) == hex_lower(child_public_key)
        }),
{
    reveal_strlit("your_index=");
    reveal_strlit("\nchild_key=");
    reveal_strlit("\nchild_chain_code=");
    reveal_strlit("\nchild_public_key=");
    lemma_decimal_reads_back(index as nat);
    let dec = decimal(index as nat);
    let d = dec.len() as int;
    let a = "your_index="@;
    let b = "\nchild_key="@;
    let c = "\nchild_chain_code="@;
    let e = "\nchild_public_key="@;
    let hk = hex_lower(child_key);
    let hc = hex_lower(child_chain_code);
    let hp = hex_lower(child_public_key);
    let text = derive_response_text(index, child_key, child_chain_code, child_public_key);
    assert(text == a + dec + b + hk + c + hc + e + hp);
    assert(text.subrange(0, 11) =~= a);
    assert(text.subrange(11, 11 + d) =~= dec);
    assert(text.subrange(22 + d, 86 + d) =~= hk);
    assert(text.subrange(104 + d, 168 + d) =~= hc);
    assert(text.subrange(186 + d, 252 + d) =~= hp);
}

/// The text served for the child of `index`, or `None` where the child cannot
/// be derived.
pub fn derive_response(config: &Config, index: u32) -> (text: Option<String>)
    ensures
        text is Some <==> config.can_derive(index),
        text matches Some(t) ==> t@ == derive_response_text(
            index,
            config.child_key(index),
            config.child_chain(index),
            config.child_public_key(index),
        ),
{
    let (child_key, child_chain_code, child_public_key) = match config.try_derive_child_key(index) {
        Some(child) => child,
        None => return None,
    };
    let key_bytes = child_key.secret_bytes();
    let mut text = String::from_str("your_index=");
    text.append(decimal_string(index).as_str());
    text.append("\nchild_key=");
    text.append(encode(&key_bytes).as_str());
    text.append("\nchild_chain_code=");
    text.append(encode(&child_chain_code).as_str());
    text.append("\nchild_public_key=");
    text.append(child_public_key.to_string().as_str());
    Some(text)
}

/// The verdict on a public key presented for an index.
#[derive(Clone, Copy, Debug, PartialEq, Eq, Structural)]
pub enum CheckOutcome {
    /// The key is the child public key of the index.
    Match,
    /// The key is not the child public key of the index.
    Mismatch,
    /// The index has not been issued yet.
    NotIssued,
}

impl CheckOutcome {
    /// The reply for the verdict, a single digit.
    pub fn code(&self) -> (code: &'static str)
        ensures
            *self == CheckOutcome::Match ==> code@ == "0"@,
            *self == CheckOutcome::Mismatch ==> code@ == "1"@,
            *self == CheckOutcome::NotIssued ==> code@ == "2"@,
    {
        match self {
            CheckOutcome::Match => "0",
            CheckOutcome::Mismatch => "1",
            CheckOutcome::NotIssued => "2",
        }
    }
}

/// The verdict on the text `public_key` presented for `index` when indexes up
/// to `issued` have been handed out.
pub open spec fn check_outcome(config: Config, index: u32, issued: u32, public_key: Seq<char>) -> CheckOutcome {
    if index > issued {
        CheckOutcome::NotIssued
    } else if hex_lower(config.child_public_key(index)) == public_key {
        CheckOutcome::Match
    } else {
        CheckOutcome::Mismatch
    }
}

/// Judges the public key text `public_key` presented for `index` when indexes
/// up to `issued` have been handed out; `None` where the index is issued but
/// its child cannot be derived.
pub fn check_public_key(config: &Config, index: u32, issued: u32, public_key: &str) -> (outcome: Option<CheckOutcome>)
    ensures
        index > issued ==> outcome == Some(CheckOutcome::NotIssued),
        index <= issued ==> (outcome is Some <==> config.can_derive(index)),
        outcome matches Some(o) ==> o == check_outcome(*config, index, issued, public_key@),
{
    if index > issued {
        return Some(CheckOutcome::NotIssued);
    }
    let (_, _, derived) = match config.try_derive_child_key(index) {
        Some(child) => child,
        None => return None,
    };
    let derived_text = derived.to_string();
    let presented = public_key.to_owned();
    if derived_text == presented {
        Some(CheckOutcome::Match)
    } else {
        Some(CheckOutcome::Mismatch)
    }
}

/// The public key that the service hands out with an issued index is accepted
/// when it is presented back for that index.
pub proof fn lemma_served_key_is_accepted(config: Config, index: u32, issued: u32)
    requires
        index <= issued,
    ensures
        check_outcome(config, index, issued, hex_lower(config.child_public_key(index)))
            == CheckOutcome::Match,
{
}

/// A public key presented for an issued index is accepted only if its bytes
/// are exactly the child public key of that index.
pub proof fn lemma_only_derived_key_is_accepted(config: Config, index: u32, issued: u32, key: Seq<u8>)
    requires
        check_outcome(config, index, issued, hex_lower(key)) == CheckOutcome::Match,
    ensures
        index <= issued,
        key == config.child_public_key(index),
{
    lemma_hex_lower_injective(key, config.child_public_key(index));
}

/// The verdict follows the issued counter and the presented text alone: "not
/// issued" exactly for an index above the counter; otherwise "match" exactly
/// when the text is the hexadecimal of the index's child public key, and
/// "mismatch" for every other text.
pub proof fn lemma_check_verdicts(config: Config, index: u32, issued: u32, public_key: Seq<char>)
    ensures
        (check_outcome(config, index, issued, public_key) == CheckOutcome::NotIssued) <==> index > issued,
        index <= issued ==> ((check_outcome(config, index, issued, public_key) == CheckOutcome::Match)
            <==> public_key == hex_lower(config.child_public_key(index))),
        index <= issued && public_key != hex_lower(config.child_public_key(index))
            ==> check_outcome(config, index, issued, public_key) == CheckOutcome::Mismatch,
{
}

/// An index above the issued ones is answered "not issued", whatever key
/// is presented.
pub proof fn lemma_unissued_index_refused(config: Config, index: u32, issued: u32, public_key: Seq<char>)
    requires
        index > issued,
    ensures
        check_outcome(config, index, issued, public_key) == CheckOutcome::NotIssued,
{
}

} // verus!
