//! Signed transactions: finding the sender of a signature, and the wire form.

use crate::codec::decode::{lemma_decode_encode_utx, spec_decode_utx, utx_wf};
use crate::codec::field::{dec_bytes, enc_bytes, lemma_dec_enc_bytes, lemma_tail_tail, read_bytes};
use crate::codec::rlp::push_str;
use crate::codec::transaction::{tx_encoding, utx_encoding, v_fits};
use crate::types::hash::{slice_to_vec, spec_digest, Hasher, H160};
use crate::types::primitive::Address;
use crate::types::transaction::{
    SignedTransaction, SignedTransactionView, UnverifiedTransaction, UnverifiedTransactionView,
};
use ophelia::UncompressedPublicKey;
use vstd::prelude::*;
use vstd::slice::slice_subrange;

verus! {

/// Why a value of the data model could not be made.
#[derive(Clone, Copy, Debug, PartialEq, Eq, Structural)]
pub enum TypesError {
    /// A byte string has another length than asked for.
    LengthMismatch { expect: usize, real: usize },
    /// A hex string holds a character that is no hex digit, or an odd number of them.
    FromHex,
    /// A hex string does not start with `0x`.
    HexPrefix,
    /// A public key is of no known form.
    InvalidPublicKey,
    /// The upper and lower case of an address do not spell its checksum.
    InvalidCheckSum,
    /// A transaction has no signature.
    Unsigned,
    /// No key signs the transaction with its signature.
    Crypto,
}

/// Why a wire form could not be read.
#[derive(Clone, Copy, Debug, PartialEq, Eq, Structural)]
pub enum DecoderError {
    /// The bytes are the wire form of no transaction.
    Malformed,
    /// No key signs the transaction with its signature.
    RecoverSignature,
}

/// The public key, in its uncompressed form of 65 bytes, that signs a
/// digest with a signature of `r`, `s` and recovery id, if there is one: a
/// function of digest and signature alone.
pub uninterp spec fn recovered_key(msg: Seq<u8>, sig: Seq<u8>) -> Option<Seq<u8>>;

/// `recover` of ophelia-secp256k1, and `serialize_uncompressed` of the key
/// it gives: the key that signs the digest `msg` with the 65 bytes of
/// `sig`, in 65 bytes. It fails where `msg` has not 32 bytes or no key is
/// found, and must not be called with a signature of another length than
/// 65. The contract names the result.
#[verifier::external_body]
pub(crate) fn outside_recover(msg: &[u8], sig: &[u8]) -> (r: Option<Vec<u8>>)
    requires
        sig@.len() == 65,
    ensures
        match r {
            Some(k) => recovered_key(msg@, sig@) == Some(k@) && k@.len() == 65,
            None => recovered_key(msg@, sig@) is None,
        },
{
    match ophelia_secp256k1::recover(msg, sig) {
        Ok(k) => Some(k.serialize_uncompressed().to_vec()),
        Err(_) => None,
    }
}

/// The digest that the signature of a transaction signs.
pub open spec fn signing_digest(t: UnverifiedTransactionView) -> Seq<u8> {
    spec_digest(tx_encoding(t.unsigned, Some(t.chain_id), None))
}

/// The address of a public key of 64 bytes: the last 20 bytes of its digest.
pub open spec fn spec_public_to_address(public: Seq<u8>) -> H160 {
    H160::spec_of(spec_digest(public).subrange(12, 32))
}

/// The address of a public key of 64 bytes: the last 20 bytes of its digest.
pub fn public_to_address(public: &[u8]) -> (r: H160)
    ensures
        r == spec_public_to_address(public@),
{
    let hash = Hasher::digest(public);
    let r = hash.low_address();
    proof {
        H160::lemma_spec_of(r@);
    }
    r
}

/// The uncompressed form, of 65 bytes, of the public key that a byte
/// string is a form of, if it is one: a function of the bytes alone.
pub uninterp spec fn uncompressed_key(key: Seq<u8>) -> Option<Seq<u8>>;

/// `Secp256k1PublicKey::try_from` of ophelia-secp256k1, and
/// `to_uncompressed_bytes` of the key it gives: the key that the bytes
/// are a form of, in 65 bytes. It fails where the bytes are no form of a
/// public key. The contract names the result.
#[verifier::external_body]
fn outside_uncompress(key: &[u8]) -> (r: Option<Vec<u8>>)
    ensures
        match r {
            Some(k) => uncompressed_key(key@) == Some(k@) && k@.len() == 65,
            None => uncompressed_key(key@) is None,
        },
{
    match ophelia_secp256k1::Secp256k1PublicKey::try_from(key) {
        Ok(k) => Some(k.to_uncompressed_bytes().to_vec()),
        Err(_) => None,
    }
}

/// The address of a public key in its compressed form of 33 bytes or its
/// uncompressed form of 65: the address of the 64 bytes behind the first
/// byte of the uncompressed form. There is none for bytes of another
/// length, and for 33 bytes that are the form of no key.
pub open spec fn spec_address_from_pubkey(bytes: Seq<u8>) -> Result<Address, TypesError> {
    if bytes.len() == 33 {
        match uncompressed_key(bytes) {
            Some(k) => if k.len() == 65 {
                Ok(Address(spec_public_to_address(k.subrange(1, 65))))
            } else {
                Err(TypesError::InvalidPublicKey)
            },
            None => Err(TypesError::InvalidPublicKey),
        }
    } else if bytes.len() == 65 {
        Ok(Address(spec_public_to_address(bytes.subrange(1, 65))))
    } else {
        Err(TypesError::InvalidPublicKey)
    }
}

impl Address {
    /// The address of a public key in its compressed or uncompressed form.
    pub fn from_pubkey_bytes(bytes: &[u8]) -> (r: Result<Address, TypesError>)
        ensures
            r == spec_address_from_pubkey(bytes@),
    {
        if bytes.len() == 33 {
            match outside_uncompress(bytes) {
                None => Err(TypesError::InvalidPublicKey),
                Some(k) => Ok(Address(public_to_address(slice_subrange(k.as_slice(), 1, 65)))),
            }
        } else if bytes.len() == 65 {
            Ok(Address(public_to_address(slice_subrange(bytes, 1, 65))))
        } else {
            Err(TypesError::InvalidPublicKey)
        }
    }
}

/// The sender of a transaction and the 64 bytes of its public key, if
/// its signature has 64 bytes besides the recovery id and a key signs the
/// transaction with it.
pub open spec fn spec_recover(t: UnverifiedTransactionView) -> Option<(H160, Seq<u8>)> {
    match t.signature {
        None => None,
        Some(sig) => if sig.r.len() + sig.s.len() != 64 {
            None
        } else {
            match recovered_key(signing_digest(t), sig.r + sig.s + seq![sig.standard_v]) {
                Some(k) => if k.len() == 65 {
                    Some((spec_public_to_address(k.subrange(1, 65)), k.subrange(1, 65)))
                } else {
                    None
                },
                None => None,
            }
        },
    }
}

/// The sender of a transaction and the 64 bytes of its public key.
pub fn recover_sender(t: &UnverifiedTransaction) -> (r: Option<(H160, Vec<u8>)>)
    ensures
        match spec_recover(t@) {
            Some((sender, public)) => r matches Some((s, p)) && s == sender && p@ == public,
            None => r is None,
        },
{
    let sig = match &t.signature {
        None => { return None; },
        Some(s) => s,
    };
    let digest = t.signature_hash(true);
    let sig_bytes = sig.as_bytes();
    if sig_bytes.len() != 65 {
        return None;
    }
    match outside_recover(digest.bytes.as_slice(), sig_bytes.as_slice()) {
        None => None,
        Some(k) => {
            let public = slice_to_vec(slice_subrange(k.as_slice(), 1, 65));
            let sender = public_to_address(public.as_slice());
            Some((sender, public))
        },
    }
}

/// The wire form of a signed transaction: that of the transaction in it,
/// as one byte string.
pub open spec fn stx_encoding(t: SignedTransactionView) -> Seq<u8> {
    enc_bytes(utx_encoding(t.transaction))
}

/// The signed transaction that a byte string is the wire form of, if it
/// is one: the transaction in it, with the sender that its signature gives.
pub open spec fn spec_decode_stx(s: Seq<u8>, default_chain_id: u64) -> Result<
    SignedTransactionView,
    DecoderError,
> {
    match dec_bytes(s) {
        Some((p, rest)) => if rest.len() != 0 {
            Err(DecoderError::Malformed)
        } else {
            match spec_decode_utx(p, default_chain_id) {
                Some(u) => match spec_recover(u) {
                    Some((sender, public)) => Ok(
                        SignedTransactionView { transaction: u, sender, public: Some(public) },
                    ),
                    None => Err(DecoderError::RecoverSignature),
                },
                None => Err(DecoderError::Malformed),
            }
        },
        None => Err(DecoderError::Malformed),
    }
}

/// Whether a signed transaction is one that a wire form can hold: the
/// transaction in it is, and its sender and public key are those that its
/// signature gives.
pub open spec fn stx_wf(t: SignedTransactionView) -> bool {
    &&& utx_wf(t.transaction)
    &&& utx_encoding(t.transaction).len() <= u64::MAX
    &&& t.public is Some
    &&& spec_recover(t.transaction) == Some((t.sender, t.public->0))
}

/// Decoding the wire form of a signed transaction gives the transaction.
pub proof fn lemma_decode_encode_stx(t: SignedTransactionView, default_chain_id: u64)
    requires
        stx_wf(t),
    ensures
        spec_decode_stx(stx_encoding(t), default_chain_id) == Ok::<
            SignedTransactionView,
            DecoderError,
        >(t),
{
    let e = Seq::<u8>::empty();
    lemma_dec_enc_bytes(utx_encoding(t.transaction), e);
    assert(stx_encoding(t) + e =~= stx_encoding(t));
    lemma_decode_encode_utx(t.transaction, default_chain_id);
}

impl SignedTransaction {
    /// The signed transaction of an unverified one: its hash is set to the
    /// digest of its wire form, and its sender is the one that its
    /// signature gives.
    ///
    /// Fails where the transaction has no signature, or no key signs it
    /// with its signature.
    pub fn from_unverified(utx: UnverifiedTransaction) -> (r: Result<SignedTransaction, TypesError>)
        requires
            v_fits(utx@),
        ensures
            utx@.signature is None ==> r == Err::<SignedTransaction, TypesError>(
                TypesError::Unsigned,
            ),
            utx@.signature is Some && spec_recover(utx@) is None ==> r == Err::<
                SignedTransaction,
                TypesError,
            >(TypesError::Crypto),
            spec_recover(utx@) matches Some((sender, public)) ==> {
                &&& r matches Ok(t)
                &&& t@.sender == sender
                &&& t@.public == Some(public)
                &&& t@.transaction.unsigned == utx@.unsigned
                &&& t@.transaction.signature == utx@.signature
                &&& t@.transaction.chain_id == utx@.chain_id
                &&& t@.transaction.hash@ == spec_digest(utx_encoding(utx@))
            },
    {
        if utx.signature.is_none() {
            return Err(TypesError::Unsigned);
        }
        match recover_sender(&utx) {
            None => Err(TypesError::Crypto),
            Some((sender, public)) => Ok(
                SignedTransaction { transaction: utx.calc_hash(), sender, public: Some(public) },
            ),
        }
    }

    /// The wire form of the signed transaction.
    pub fn encode(&self) -> (r: Vec<u8>)
        requires
            v_fits(self@.transaction),
        ensures
            r@ == stx_encoding(self@),
    {
        proof {
            reveal(enc_bytes);
        }
        let inner = self.transaction.rlp_bytes();
        let mut out: Vec<u8> = Vec::new();
        push_str(&mut out, inner.as_slice());
        assert(out@ =~= stx_encoding(self@));
        out
    }

    /// The signed transaction that `bytes` is the wire form of.
    ///
    /// Fails where `bytes` is the wire form of no transaction, and where
    /// no key signs the transaction with its signature.
    pub fn decode(bytes: &[u8], default_chain_id: u64) -> (r: Result<
        SignedTransaction,
        DecoderError,
    >)
        ensures
            match spec_decode_stx(bytes@, default_chain_id) {
                Ok(v) => r matches Ok(t) && t@ == v,
                Err(e) => r == Err::<SignedTransaction, DecoderError>(e),
            },
    {
        proof {
            lemma_tail_tail(bytes@, 0, 0);
        }
        let (start, end) = match read_bytes(bytes, 0) {
            None => { return Err(DecoderError::Malformed); },
            Some(x) => x,
        };
        if end != bytes.len() {
            return Err(DecoderError::Malformed);
        }
        let utx = match UnverifiedTransaction::decode(
            slice_subrange(bytes, start, end),
            default_chain_id,
        ) {
            None => { return Err(DecoderError::Malformed); },
            Some(x) => x,
        };
        match recover_sender(&utx) {
            None => Err(DecoderError::RecoverSignature),
            Some((sender, public)) => Ok(
                SignedTransaction { transaction: utx, sender, public: Some(public) },
            ),
        }
    }
}

} // verus!
