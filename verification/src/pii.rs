//! Keeping personal data out of stored snapshots. An account number is
//! never stored: only its salted SHA-256 hash, as the account's key.
//! Holder names, login ids and raw provider payloads are dropped.

use vstd::prelude::*;

use crate::account::Holding;
use crate::snapshot::{AccountRecord, Category, Status};
use crate::text::{chars_of, concat, string_of};

verus! {

/// What SHA-256 makes of `data`.
pub uninterp spec fn sha256(data: Seq<u8>) -> Seq<u8>;

/// `sha2::Sha256::digest`: the SHA-256 digest of `data`, 32 bytes long.
#[verifier::external_body]
pub(crate) fn sha256_digest(data: &[u8]) -> (r: Vec<u8>)
    ensures
        r@ == sha256(data@),
        r@.len() == 32,
{
    <sha2::Sha256 as sha2::Digest>::digest(data).to_vec()
}

/// The lower-case hexadecimal digit for `d` (below 16).
pub open spec fn hex_digit(d: nat) -> char {
    if d < 10 {
        (48 + d) as char
    } else {
        (87 + d) as char
    }
}

/// `b` written as lower-case hexadecimal, two digits per byte.
pub open spec fn hex_lower(b: Seq<u8>) -> Seq<char>
    decreases b.len(),
{
    if b.len() == 0 {
        seq![]
    } else {
        hex_lower(b.drop_last()) + seq![
            hex_digit(b.last() as nat / 16),
            hex_digit(b.last() as nat % 16),
        ]
    }
}

pub open spec fn is_hex_char(c: char) -> bool {
    ('0' <= c && c <= '9') || ('a' <= c && c <= 'f')
}

pub proof fn lemma_hex_lower(b: Seq<u8>)
    ensures
        hex_lower(b).len() == 2 * b.len(),
        forall|i: int| 0 <= i < hex_lower(b).len() ==> is_hex_char(#[trigger] hex_lower(b)[i]),
    decreases b.len(),
{
    if b.len() > 0 {
        lemma_hex_lower(b.drop_last());
        let prev = hex_lower(b.drop_last());
        let hi = b.last() as nat / 16;
        let lo = b.last() as nat % 16;
        assert(hi < 16 && lo < 16);
        assert(is_hex_char(hex_digit(hi)));
        assert(is_hex_char(hex_digit(lo)));
        assert forall|i: int| 0 <= i < hex_lower(b).len() implies is_hex_char(
            #[trigger] hex_lower(b)[i],
        ) by {
            if i < prev.len() {
                assert(hex_lower(b)[i] == prev[i]);
            }
        }
    }
}

fn hex_digit_exec(d: u8) -> (c: char)
    requires
        d < 16,
    ensures
        c == hex_digit(d as nat),
{
    if d < 10 {
        (48 + d) as char
    } else {
        (87 + d) as char
    }
}

/// `bytes` as lower-case hexadecimal text.
pub fn hex_encode(bytes: &[u8]) -> (r: Vec<char>)
    ensures
        r@ == hex_lower(bytes@),
{
    let mut r: Vec<char> = Vec::new();
    let mut i: usize = 0;
    while i < bytes.len()
        invariant
            i <= bytes.len(),
            r@ == hex_lower(bytes@.take(i as int)),
        decreases bytes.len() - i,
    {
        assert(bytes@.take(i + 1).drop_last() =~= bytes@.take(i as int));
        let b = bytes[i];
        r.push(hex_digit_exec(b / 16));
        r.push(hex_digit_exec(b % 16));
        i = i + 1;
    }
    assert(bytes@.take(bytes.len() as int) =~= bytes@);
    r
}

/// The key of the account with number `number` in a source salted with
/// `salt`: `"sha256:"` and the hexadecimal SHA-256 of the salt's UTF-8
/// bytes followed by the number's.
pub open spec fn account_key_of(number: Seq<char>, salt: Seq<char>) -> Seq<char> {
    "sha256:"@ + hex_lower(sha256(vstd::utf8::encode_utf8(salt) + vstd::utf8::encode_utf8(number)))
}

/// The salted hash of an account number, as the account's stored key:
/// `"sha256:"` and 64 lower-case hexadecimal digits. The same number
/// and salt always give the same key.
pub fn hash_account_number(account_number: &str, salt: &str) -> (r: String)
    ensures
        r@ == account_key_of(account_number@, salt@),
        r@.len() == 7 + 64,
        r@.take(7) == "sha256:"@,
        forall|i: int| 7 <= i < r@.len() ==> is_hex_char(#[trigger] r@[i]),
{
    let mut data: Vec<u8> = Vec::new();
    let sb = salt.as_bytes();
    let nb = account_number.as_bytes();
    let mut i: usize = 0;
    while i < sb.len()
        invariant
            i <= sb.len(),
            data@ == sb@.take(i as int),
        decreases sb.len() - i,
    {
        data.push(sb[i]);
        assert(data@ =~= sb@.take(i + 1));
        i = i + 1;
    }
    let mut j: usize = 0;
    while j < nb.len()
        invariant
            j <= nb.len(),
            data@ == sb@ + nb@.take(j as int),
        decreases nb.len() - j,
    {
        data.push(nb[j]);
        assert(data@ =~= sb@ + nb@.take(j + 1));
        j = j + 1;
    }
    assert(sb@.take(sb.len() as int) =~= sb@);
    assert(data@ =~= sb@ + nb@);
    let digest = sha256_digest(&data);
    let hex = hex_encode(&digest);
    proof {
        lemma_hex_lower(digest@);
        reveal_strlit("sha256:");
    }
    let prefix = chars_of("sha256:");
    let r = string_of(&concat(&prefix, &hex));
    assert(r@.take(7) =~= "sha256:"@);
    assert forall|i: int| 7 <= i < r@.len() implies is_hex_char(#[trigger] r@[i]) by {
        assert(r@[i] == hex@[i - 7]);
    }
    r
}

/// Everything a provider may have fetched about one account, before
/// personal data is dropped.
pub struct RawAccountData {
    pub source_id: String,
    pub institution: String,
    pub category: Category,
    pub account_type: String,
    /// Balance in cents.
    pub balance: Option<i64>,
    pub currency: String,
    pub status: Status,
    pub error_message: Option<String>,
    /// The real account number: hashed into the key, never stored.
    pub account_number: String,
    /// Never stored.
    pub account_holder_name: Option<String>,
    /// Never stored.
    pub institution_login_id: Option<String>,
    /// The provider's raw response. Never stored.
    pub raw_response: Option<String>,
}

pub open spec fn opt_str_view(o: Option<String>) -> Option<Seq<char>> {
    match o {
        Some(s) => Some(s@),
        None => None,
    }
}

fn clone_opt(o: &Option<String>) -> (r: Option<String>)
    ensures
        opt_str_view(r) == opt_str_view(*o),
{
    match o {
        Some(s) => Some(s.clone()),
        None => None,
    }
}

/// The stored record of a fetched account: its number replaced by its
/// salted key, and the holder's name, login id and the raw response left
/// out (the record has no place for them).
pub fn scrub(raw: &RawAccountData, account_salt: &str) -> (r: AccountRecord)
    ensures
        r.account_key@ == account_key_of(raw.account_number@, account_salt@),
        r.source_id@ == raw.source_id@,
        r.institution@ == raw.institution@,
        r.category == raw.category,
        r.account_type@ == raw.account_type@,
        r.balance == raw.balance,
        r.currency@ == raw.currency@,
        r.status == raw.status,
        opt_str_view(r.error_message) == opt_str_view(raw.error_message),
        r.holdings is None,
{
    AccountRecord {
        account_key: hash_account_number(raw.account_number.as_str(), account_salt),
        source_id: raw.source_id.clone(),
        institution: raw.institution.clone(),
        category: raw.category,
        account_type: raw.account_type.clone(),
        balance: raw.balance,
        currency: raw.currency.clone(),
        status: raw.status,
        error_message: clone_opt(&raw.error_message),
        holdings: None,
    }
}

} // verus!
