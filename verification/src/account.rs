//! The sudo account: how it is derived from the secret seed, and the runtime
//! API request that asks a node for the account's next sequence number.
//! Blocks are named here too, by their hashes.

use crate::endpoint::ConfigurationError;
use vstd::prelude::*;

verus! {

/// The public address of the sudo account: the key under which a node keeps
/// the account's sequence number, and the origin of every submitted call.
#[derive(Clone, Copy, Debug, PartialEq, Eq)]
pub struct AccountId {
    pub bytes: [u8; 32],
}

/// The identifier of a block: its hash.
#[derive(Clone, Copy, Debug, PartialEq, Eq)]
pub struct BlockId {
    pub hash: [u8; 32],
}

/// A read-only call of a node's runtime API.
#[derive(Debug, PartialEq, Eq)]
pub struct SequenceQuery {
    /// The name of the runtime API method.
    pub method: String,
    /// The encoded arguments of the method.
    pub params: Vec<u8>,
}

/// What a sequence query holds.
pub struct SequenceQueryView {
    pub method: Seq<char>,
    pub params: Seq<u8>,
}

impl View for SequenceQuery {
    type V = SequenceQueryView;

    open spec fn view(&self) -> SequenceQueryView {
        SequenceQueryView { method: self.method@, params: self.params@ }
    }
}

/// The query for the next sequence number of `account`: the method of the
/// account nonce API, with the account's 32 bytes as its argument.
pub open spec fn sequence_query_of(account: AccountId) -> SequenceQueryView {
    SequenceQueryView { method: "AccountNonceApi_account_nonce"@, params: account.bytes@ }
}

/// `parity_scale_codec::Encode::encode` on an array of 32 bytes. The codec
/// writes an array without a length prefix, and a byte as itself: the result
/// holds the 32 bytes of the array, in order.
#[verifier::external_body]
fn encode_bytes32(bytes: &[u8; 32]) -> (encoded: Vec<u8>)
    ensures
        encoded@ == bytes@,
{
    parity_scale_codec::Encode::encode(bytes)
}

/// Builds the query for the next sequence number of `account`.
pub fn sequence_query(account: &AccountId) -> (query: SequenceQuery)
    ensures
        query@ == sequence_query_of(*account),
{
    SequenceQuery {
        method: String::from_str("AccountNonceApi_account_nonce"),
        params: encode_bytes32(&account.bytes),
    }
}

/// The public key of the sr25519 key pair that a secret URI stands for: a
/// hexadecimal seed or a mnemonic phrase, with derivation paths and a
/// password where it has them. `None` where the text is no secret URI, or
/// where its seed or phrase gives no key pair.
pub uninterp spec fn sr25519_public_key(secret_uri: Seq<char>) -> Option<Seq<u8>>;

/// `subxt_signer::sr25519::Keypair::from_uri`, handed the secret URI that
/// `SecretUri::from_str` reads from the text; the result is turned into the
/// 32 bytes that `public_key()` gives. The key pair is derived from the
/// text alone, so the same text always gives the same bytes; a text that
/// either function refuses gives `None`.
#[verifier::external_body]
fn public_key_of(secret_uri: &str) -> (key: Option<[u8; 32]>)
    ensures
        match key {
            Some(bytes) => sr25519_public_key(secret_uri@) == Some(bytes@),
            None => sr25519_public_key(secret_uri@) is None,
        },
{
    let uri = <subxt_signer::SecretUri as std::str::FromStr>::from_str(secret_uri).ok()?;
    let pair = subxt_signer::sr25519::Keypair::from_uri(&uri).ok()?;
    Some(pair.public_key().0)
}

/// The account of the sudo key: the public key of the key pair that the
/// secret seed stands for. A seed that stands for no key pair is refused.
pub fn sudo_account(secret_seed: &str) -> (account: Result<AccountId, ConfigurationError>)
    ensures
        match account {
            Ok(id) => sr25519_public_key(secret_seed@) == Some(id.bytes@),
            Err(error) => error == ConfigurationError::InvalidSeed && sr25519_public_key(
                secret_seed@,
            ) is None,
        },
{
    match public_key_of(secret_seed) {
        Some(bytes) => Ok(AccountId { bytes }),
        None => Err(ConfigurationError::InvalidSeed),
    }
}

} // verus!
