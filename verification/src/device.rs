//! The device fingerprint: hashing the collected identifier strings and the
//! orchestration policy around failed collections.

use vstd::prelude::*;

use vstd::string::StringExecFns;

use crate::digest::{sha256_digest, sha256_of};
use crate::hex::{encode_hex, hex_of, is_lower_hex_char, lemma_hex_of_form};

verus! {

/// The two collected identifier strings joined by a single colon. The
/// separator is not escaped.
pub open spec fn combined_of(mac: Seq<char>, disk: Seq<char>) -> Seq<char> {
    mac + seq![':'] + disk
}

/// The fingerprint of a pair of identifier strings: the SHA-256 digest of
/// their colon-joined combination, rendered as lowercase hex.
pub open spec fn fingerprint_of(mac: Seq<char>, disk: Seq<char>) -> Seq<char> {
    hex_of(sha256_of(combined_of(mac, disk)))
}

/// The SHA-256 digest of the input, rendered as a 64-character lowercase hex
/// string.
pub fn create_hash(input: &str) -> (r: String)
    ensures
        r@ == hex_of(sha256_of(input@)),
        r@.len() == 64,
        forall|i: int| 0 <= i < r@.len() ==> is_lower_hex_char(#[trigger] r@[i]),
{
    let digest = sha256_digest(input);
    let r = encode_hex(&digest);
    proof {
        lemma_hex_of_form(sha256_of(input@));
    }
    r
}

/// The fingerprint of the two identifier strings: the hash of
/// `mac + ":" + disk`. A pure function of its inputs; it cannot fail.
pub fn fingerprint(mac: &str, disk: &str) -> (r: String)
    ensures
        r@ == fingerprint_of(mac@, disk@),
        r@.len() == 64,
        forall|i: int| 0 <= i < r@.len() ==> is_lower_hex_char(#[trigger] r@[i]),
{
    let mut combined = mac.to_owned();
    combined.append(":");
    combined.append(disk);
    proof {
        reveal_strlit(":");
        assert(combined@ =~= combined_of(mac@, disk@));
    }
    create_hash(combined.as_str())
}

/// The string a collection step resolves to: its output when it succeeded,
/// the fallback placeholder when it failed.
pub open spec fn resolved_identifier(collected: Result<String, String>, fallback: Seq<char>) -> Seq<char> {
    match collected {
        Ok(s) => s@,
        Err(_) => fallback,
    }
}

/// Derives the device fingerprint from the outcomes of the two collection
/// steps. A failed MAC collection is replaced by the placeholder
/// `unknown_mac`, a failed disk collection by `unknown_disk`, so the
/// operation never fails outward: the result is always `Ok`.
pub fn get_device_identifiers(mac: Result<String, String>, disk: Result<String, String>) -> (r:
    Result<String, String>)
    ensures
        r is Ok,
        r->Ok_0@ == fingerprint_of(
            resolved_identifier(mac, "unknown_mac"@),
            resolved_identifier(disk, "unknown_disk"@),
        ),
{
    let mac_string: String = match mac {
        Ok(s) => s,
        Err(_) => "unknown_mac".to_owned(),
    };
    let disk_string: String = match disk {
        Ok(s) => s,
        Err(_) => "unknown_disk".to_owned(),
    };
    Ok(fingerprint(mac_string.as_str(), disk_string.as_str()))
}

/// Computing the fingerprint twice on identical inputs yields identical
/// output: the fingerprint is a function of the two input strings alone.
pub proof fn lemma_fingerprint_deterministic(
    mac: Seq<char>,
    disk: Seq<char>,
    r1: Seq<char>,
    r2: Seq<char>,
)
    requires
        r1 == fingerprint_of(mac, disk),
        r2 == fingerprint_of(mac, disk),
    ensures
        r1 == r2,
{
}

} // verus!
