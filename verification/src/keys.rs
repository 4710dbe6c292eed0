//! Delegated key hierarchy: master keys and scope-limited validator
//! keys.
//!
//! A master key owns funds and stays client-side; a validator key is
//! derived from it with HMAC-SHA3-256 and can only sign votes and
//! color-marker validations.  Revocation marks the validator key
//! revoked and wipes its private bytes, after which it signs nothing.

use vstd::prelude::*;
use vstd::string::*;
use vstd::utf8::*;
use crate::crypto::{
    ed25519_pub_of, ed25519_sign_of, ed25519_verifies, hmac_sha3_256_of, sha3_256_of,
};

verus! {

/// Errors of the key subsystem.
#[derive(Clone, Debug)]
pub enum CryptoError {
    /// A key could not be created.
    KeyGenerationError(String),
    /// Key material had the wrong shape.
    InvalidKeyFormat(String),
    /// A signature could not be produced.
    SigningError(String),
}

impl CryptoError {
    /// The carried description.
    pub fn message(&self) -> (r: String)
        ensures
            self matches CryptoError::KeyGenerationError(m) ==> r@ == m@,
            self matches CryptoError::InvalidKeyFormat(m) ==> r@ == m@,
            self matches CryptoError::SigningError(m) ==> r@ == m@,
    {
        match self {
            CryptoError::KeyGenerationError(m) => m.clone(),
            CryptoError::InvalidKeyFormat(m) => m.clone(),
            CryptoError::SigningError(m) => m.clone(),
        }
    }
}

/// Result type of the key subsystem.
pub type CryptoResult<T> = Result<T, CryptoError>;

/// Operations a key may be asked to perform.
#[derive(Clone, Copy, Debug, PartialEq, Eq, Structural)]
pub enum KeyOperation {
    /// Send a transaction (master key only).
    SendTransaction,
    /// Vote on block proposals (validator key allowed).
    Vote,
    /// Validate color markers (validator key allowed).
    ValidateColorMarker,
    /// Revoke a validator key (master key only).
    RevokeValidatorKey,
    /// Migrate to a new validator (master key only).
    MigrateValidator,
}

/// The wallet address of a public key: `0x` followed by the hex of the
/// first 20 bytes of its SHA3-256 digest.
pub open spec fn spec_address_of(pk: Seq<u8>) -> Seq<char> {
    seq!['0', 'x'] + crate::hexstr::spec_to_hex(sha3_256_of(pk).take(20))
}

/// The derivation input of a validator key: a fixed label, the master
/// key's creation time and the caller's nonce.
pub open spec fn spec_derivation_input(created_at: u64, nonce: Seq<u8>) -> Seq<u8> {
    encode_utf8("SELF_VALIDATOR_KEY_v1"@) + crate::codec::spec_u64_le(created_at) + nonce
}

/// The derived validator private key: the first 32 bytes of the
/// HMAC-SHA3-256 tag of the derivation input under the master private
/// key.
pub open spec fn spec_derived_sk(master_sk: Seq<u8>, created_at: u64, nonce: Seq<u8>) -> Seq<u8> {
    hmac_sha3_256_of(master_sk, spec_derivation_input(created_at, nonce)).take(32)
}

/// The signed content of a revocation: a fixed label, the revoked
/// public key and the timestamp.
pub open spec fn spec_revocation_msg(vpk: Seq<u8>, timestamp: u64) -> Seq<u8> {
    encode_utf8("REVOKE_VALIDATOR"@) + vpk + crate::codec::spec_u64_le(timestamp)
}

/// The signed content of a validator vote.
pub open spec fn spec_vote_msg(block_hash: Seq<u8>, vote: bool, timestamp: u64) -> Seq<u8> {
    encode_utf8("VOTE"@) + block_hash + seq![if vote { 1u8 } else { 0u8 }]
        + crate::codec::spec_u64_le(timestamp)
}

/// The signed content of a color-marker validation.
pub open spec fn spec_color_validation_msg(tx_hash: Seq<u8>, valid: bool) -> Seq<u8> {
    encode_utf8("COLOR_VALIDATION"@) + tx_hash + seq![if valid { 1u8 } else { 0u8 }]
}

/// A master key: controls funds, signs revocations, derives validator
/// keys.
#[derive(Clone, Debug)]
pub struct MasterKey {
    /// Ed25519 private key (32 bytes).
    pub private_key: Vec<u8>,
    /// Ed25519 public key (32 bytes).
    pub public_key: Vec<u8>,
    /// Wallet address derived from the public key.
    pub address: String,
    /// Creation timestamp, seconds since epoch.
    pub created_at: u64,
}

/// Well-formedness of a master key: the key pair matches and the
/// address is derived from the public key.
pub open spec fn spec_master_wf(m: &MasterKey) -> bool {
    &&& m.private_key@.len() == 32
    &&& m.public_key@.len() == 32
    &&& m.public_key@ == ed25519_pub_of(m.private_key@)
    &&& m.address@ == spec_address_of(m.public_key@)
    &&& is_ascii_chars(m.address@)
}

/// Build the address string of a public key.
fn derive_address(public_key: &Vec<u8>) -> (r: String)
    ensures
        r@ == spec_address_of(public_key@),
        is_ascii_chars(r@),
{
    let digest = crate::crypto::sha3_256(public_key);
    let mut head: Vec<u8> = Vec::new();
    let mut i: usize = 0;
    while i < 20
        invariant
            i <= 20,
            digest@.len() == 32,
            head@ == digest@.take(i as int),
        decreases 20 - i,
    {
        head.push(digest[i]);
        proof {
            assert(digest@.take(i + 1) =~= digest@.take(i as int).push(digest@[i as int]));
        }
        i = i + 1;
    }
    let hex = crate::hexstr::to_hex_string(&head);
    let mut s = String::new();
    crate::codec::push_char(&mut s, '0');
    crate::codec::push_char(&mut s, 'x');
    s.append(hex.as_str());
    proof {
        assert(s@ =~= spec_address_of(public_key@));
        assert forall|j: int| 0 <= j < s@.len() implies '\0' <= #[trigger] s@[j] <= '\u{7f}' by {
            if j >= 2 {
                assert(s@[j] == hex@[j - 2]);
            }
        }
    }
    s
}

impl MasterKey {
    /// Generate a fresh master key from system randomness.
    pub fn generate() -> (r: CryptoResult<MasterKey>)
        ensures
            r matches Ok(m) && spec_master_wf(&m),
    {
        let private_key = crate::crypto::random_bytes_32();
        let public_key = crate::crypto::ed25519_public_key(&private_key);
        let address = derive_address(&public_key);
        let created_at = crate::crypto::current_timestamp();
        Ok(MasterKey { private_key, public_key, address, created_at })
    }

    /// Import a master key from its 32 private bytes.  Rejects material
    /// of any other length.
    pub fn from_private_key(private_key: Vec<u8>) -> (r: CryptoResult<MasterKey>)
        ensures
            private_key@.len() == 32 ==> (r matches Ok(m) && spec_master_wf(&m)
                && m.private_key@ == private_key@),
            private_key@.len() != 32 ==> r is Err,
    {
        if private_key.len() != 32 {
            return Err(
                CryptoError::InvalidKeyFormat(
                    String::from_str("master private key must be 32 bytes"),
                ),
            );
        }
        let public_key = crate::crypto::ed25519_public_key(&private_key);
        let address = derive_address(&public_key);
        let created_at = crate::crypto::current_timestamp();
        Ok(MasterKey { private_key, public_key, address, created_at })
    }

    /// Derive a scope-limited validator key for the given nonce.
    ///
    /// Derivation is deterministic in the master key and the nonce: the
    /// private bytes are `HMAC-SHA3-256(master_sk, label || created_at
    /// || nonce)` and the public key follows from them.
    pub fn derive_validator_key(&self, nonce: &Vec<u8>) -> (r: CryptoResult<ValidatorKey>)
        requires
            spec_master_wf(self),
        ensures
            r matches Ok(v) && spec_validator_wf(&v) && !v.revoked && v.private_key@
                == spec_derived_sk(self.private_key@, self.created_at, nonce@) && v.public_key@
                == ed25519_pub_of(spec_derived_sk(self.private_key@, self.created_at, nonce@))
                && v.master_address@ == self.address@ && v.nonce@ == nonce@,
    {
        let mut derivation_input = "SELF_VALIDATOR_KEY_v1".as_bytes_vec();
        crate::codec::enc_u64(&mut derivation_input, self.created_at);
        crate::codec::enc_raw(&mut derivation_input, nonce);
        proof {
            assert(derivation_input@ =~= spec_derivation_input(self.created_at, nonce@));
        }
        let tag = crate::crypto::hmac_sha3_256(&self.private_key, &derivation_input);
        let mut validator_sk: Vec<u8> = Vec::new();
        let mut i: usize = 0;
        while i < 32
            invariant
                i <= 32,
                tag@.len() == 32,
                validator_sk@ == tag@.take(i as int),
            decreases 32 - i,
        {
            validator_sk.push(tag[i]);
            proof {
                assert(tag@.take(i + 1) =~= tag@.take(i as int).push(tag@[i as int]));
            }
            i = i + 1;
        }
        let public_key = crate::crypto::ed25519_public_key(&validator_sk);
        Ok(
            ValidatorKey {
                private_key: validator_sk,
                public_key,
                master_address: self.address.clone(),
                nonce: nonce.clone(),
                created_at: crate::crypto::current_timestamp(),
                revoked: false,
            },
        )
    }

    /// Sign a revocation of the given validator public key with this
    /// master key.  The result verifies against this master public key.
    pub fn create_revocation(&self, validator_public_key: &Vec<u8>) -> (r: CryptoResult<
        Revocation>)
        requires
            spec_master_wf(self),
        ensures
            r matches Ok(rv) && rv.master_address@ == self.address@ && rv.validator_public_key@
                == validator_public_key@ && rv.signature@ == ed25519_sign_of(
                self.private_key@,
                spec_revocation_msg(validator_public_key@, rv.timestamp),
            ) && rv.signature@.len() == 64 && ed25519_verifies(
                self.public_key@,
                spec_revocation_msg(validator_public_key@, rv.timestamp),
                rv.signature@,
            ),
    {
        let timestamp = crate::crypto::current_timestamp();
        let mut message = "REVOKE_VALIDATOR".as_bytes_vec();
        crate::codec::enc_raw(&mut message, validator_public_key);
        crate::codec::enc_u64(&mut message, timestamp);
        proof {
            assert(message@ =~= spec_revocation_msg(validator_public_key@, timestamp));
        }
        let signature = crate::crypto::ed25519_sign(&self.private_key, &message);
        Ok(
            Revocation {
                master_address: self.address.clone(),
                validator_public_key: validator_public_key.clone(),
                timestamp,
                signature,
            },
        )
    }

    /// Sign arbitrary bytes with the master key.
    pub fn sign(&self, data: &Vec<u8>) -> (r: CryptoResult<Vec<u8>>)
        requires
            spec_master_wf(self),
        ensures
            r matches Ok(s) && s@ == ed25519_sign_of(self.private_key@, data@) && s@.len() == 64,
    {
        Ok(crate::crypto::ed25519_sign(&self.private_key, data))
    }

    /// The master public key.
    pub fn public_key(&self) -> (r: &Vec<u8>)
        ensures
            r@ == self.public_key@,
    {
        &self.public_key
    }

    /// The wallet address.
    pub fn address(&self) -> (r: &String)
        ensures
            r@ == self.address@,
    {
        &self.address
    }

    /// A copy of the private key bytes.  Handle with care.
    pub fn export_private_key(&self) -> (r: Vec<u8>)
        ensures
            r@ == self.private_key@,
    {
        self.private_key.clone()
    }
}

/// A validator key: can sign votes and color validations, nothing
/// else.
#[derive(Clone, Debug)]
pub struct ValidatorKey {
    /// Derived Ed25519 private key (32 bytes; wiped on revocation).
    pub private_key: Vec<u8>,
    /// Ed25519 public key (32 bytes).
    pub public_key: Vec<u8>,
    /// Address of the master wallet this validator serves.
    pub master_address: String,
    /// Nonce used for derivation.
    pub nonce: Vec<u8>,
    /// Creation timestamp, seconds since epoch.
    pub created_at: u64,
    /// Whether the key has been revoked.
    pub revoked: bool,
}

/// Well-formedness of a validator key: the public key has its length
/// and, until revocation, the private key does too.
pub open spec fn spec_validator_wf(v: &ValidatorKey) -> bool {
    &&& v.public_key@.len() == 32
    &&& (!v.revoked ==> v.private_key@.len() == 32)
}

impl ValidatorKey {
    /// Whether this key may perform the operation: votes and
    /// color-marker validations only, and nothing once revoked.
    pub fn can_perform(&self, operation: KeyOperation) -> (r: bool)
        ensures
            r == (!self.revoked && (operation is Vote || operation is ValidateColorMarker)),
    {
        if self.revoked {
            return false;
        }
        match operation {
            KeyOperation::Vote | KeyOperation::ValidateColorMarker => true,
            KeyOperation::SendTransaction
            | KeyOperation::RevokeValidatorKey
            | KeyOperation::MigrateValidator => false,
        }
    }

    /// Sign a vote on a block hash.  Fails if and only if the key is
    /// revoked; the signed message carries the current wall-clock time.
    pub fn sign_vote(&self, block_hash: &Vec<u8>, vote: bool) -> (r: CryptoResult<Vec<u8>>)
        requires
            spec_validator_wf(self),
        ensures
            self.revoked ==> r is Err,
            !self.revoked ==> (r matches Ok(s) && s@.len() == 64 && (exists|ts: u64|
                s@ == ed25519_sign_of(
                    self.private_key@,
                    spec_vote_msg(block_hash@, vote, ts),
                ))),
    {
        if self.revoked {
            return Err(CryptoError::SigningError(String::from_str("Validator key is revoked")));
        }
        let ts = crate::crypto::current_timestamp();
        let mut message = "VOTE".as_bytes_vec();
        crate::codec::enc_raw(&mut message, block_hash);
        message.push(if vote {
            1
        } else {
            0
        });
        crate::codec::enc_u64(&mut message, ts);
        proof {
            assert(message@ =~= spec_vote_msg(block_hash@, vote, ts));
        }
        let s = crate::crypto::ed25519_sign(&self.private_key, &message);
        Ok(s)
    }

    /// Sign a color-marker validation.  Fails if and only if the key is
    /// revoked; the signature is a deterministic function of the key,
    /// the transaction hash and the verdict.
    pub fn sign_color_validation(&self, tx_hash: &Vec<u8>, valid: bool) -> (r: CryptoResult<
        Vec<u8>>)
        requires
            spec_validator_wf(self),
        ensures
            self.revoked ==> r is Err,
            !self.revoked ==> (r matches Ok(s) && s@.len() == 64 && s@ == ed25519_sign_of(
                self.private_key@,
                spec_color_validation_msg(tx_hash@, valid),
            )),
    {
        if self.revoked {
            return Err(CryptoError::SigningError(String::from_str("Validator key is revoked")));
        }
        let mut message = "COLOR_VALIDATION".as_bytes_vec();
        crate::codec::enc_raw(&mut message, tx_hash);
        message.push(if valid {
            1
        } else {
            0
        });
        proof {
            assert(message@ =~= spec_color_validation_msg(tx_hash@, valid));
        }
        let s = crate::crypto::ed25519_sign(&self.private_key, &message);
        Ok(s)
    }

    /// A validator key never signs transactions: the call fails
    /// unconditionally, without producing a signature.
    pub fn sign_transaction(&self, tx_data: &Vec<u8>) -> (r: CryptoResult<Vec<u8>>)
        ensures
            r matches Err(e) && (e matches CryptoError::SigningError(m) && m@
                == "Validator keys cannot sign transactions - use master key"@),
    {
        Err(
            CryptoError::SigningError(
                String::from_str("Validator keys cannot sign transactions - use master key"),
            ),
        )
    }

    /// Revoke this key and wipe its private bytes.
    pub fn revoke(&mut self)
        ensures
            final(self).revoked,
            final(self).private_key@.len() == 0,
            final(self).public_key@ == old(self).public_key@,
            final(self).master_address@ == old(self).master_address@,
            final(self).nonce@ == old(self).nonce@,
            final(self).created_at == old(self).created_at,
    {
        self.revoked = true;
        crate::crypto::wipe(&mut self.private_key);
    }

    /// Whether this key has been revoked.
    pub fn is_revoked(&self) -> (r: bool)
        ensures
            r == self.revoked,
    {
        self.revoked
    }

    /// The validator public key.
    pub fn public_key(&self) -> (r: &Vec<u8>)
        ensures
            r@ == self.public_key@,
    {
        &self.public_key
    }

    /// The master wallet address this key serves.
    pub fn master_address(&self) -> (r: &String)
        ensures
            r@ == self.master_address@,
    {
        &self.master_address
    }
}

/// A signed revocation of a validator key.
#[derive(Clone, Debug)]
pub struct Revocation {
    /// Master wallet address.
    pub master_address: String,
    /// Public key of the validator being revoked.
    pub validator_public_key: Vec<u8>,
    /// Revocation timestamp, seconds since epoch.
    pub timestamp: u64,
    /// Master key signature over the revocation message.
    pub signature: Vec<u8>,
}

impl Revocation {
    /// Whether this revocation is valid: its signature verifies against
    /// the master public key over the revocation message.
    pub fn verify(&self, master_public_key: &Vec<u8>) -> (r: CryptoResult<bool>)
        requires
            master_public_key@.len() == 32,
            self.signature@.len() == 64,
        ensures
            r matches Ok(b) && b == ed25519_verifies(
                master_public_key@,
                spec_revocation_msg(self.validator_public_key@, self.timestamp),
                self.signature@,
            ),
    {
        let mut message = "REVOKE_VALIDATOR".as_bytes_vec();
        crate::codec::enc_raw(&mut message, &self.validator_public_key);
        crate::codec::enc_u64(&mut message, self.timestamp);
        proof {
            assert(message@ =~= spec_revocation_msg(self.validator_public_key@, self.timestamp));
        }
        Ok(crate::crypto::ed25519_verify(master_public_key, &message, &self.signature))
    }
}

/// Holder of one master key and the validator keys derived from it.
pub struct KeyManager {
    /// The master key, once generated or imported.
    pub master_key: Option<MasterKey>,
    /// Validator keys derived so far.
    pub validator_keys: Vec<ValidatorKey>,
}

/// Well-formedness of a key manager.
pub open spec fn spec_manager_wf(km: &KeyManager) -> bool {
    &&& (km.master_key matches Some(m) ==> spec_master_wf(&m))
    &&& forall|i: int|
        0 <= i < km.validator_keys@.len() ==> spec_validator_wf(#[trigger] &km.validator_keys@[i])
}

impl KeyManager {
    /// An empty key manager.
    pub fn new() -> (r: Self)
        ensures
            r.master_key is None,
            r.validator_keys@.len() == 0,
            spec_manager_wf(&r),
    {
        KeyManager { master_key: None, validator_keys: Vec::new() }
    }

    /// Generate and hold a new master key; returns its address.
    pub fn generate_master_key(&mut self) -> (r: CryptoResult<String>)
        requires
            spec_manager_wf(old(self)),
        ensures
            spec_manager_wf(final(self)),
            final(self).master_key matches Some(m) && spec_master_wf(&m) && (r matches Ok(a) && a@
                == m.address@),
            final(self).validator_keys@ == old(self).validator_keys@,
    {
        let master_key = match MasterKey::generate() {
            Ok(m) => m,
            Err(e) => {
                return Err(e);
            },
        };
        let address = master_key.address.clone();
        self.master_key = Some(master_key);
        Ok(address)
    }

    /// Import an existing master key; returns its address.
    pub fn import_master_key(&mut self, private_key: Vec<u8>) -> (r: CryptoResult<String>)
        requires
            spec_manager_wf(old(self)),
        ensures
            spec_manager_wf(final(self)),
            private_key@.len() == 32 ==> (final(self).master_key matches Some(m) && spec_master_wf(
                &m,
            ) && m.private_key@ == private_key@ && (r matches Ok(a) && a@ == m.address@)),
            private_key@.len() != 32 ==> r is Err && final(self).master_key
                == old(self).master_key,
            final(self).validator_keys@ == old(self).validator_keys@,
    {
        let master_key = match MasterKey::from_private_key(private_key) {
            Ok(m) => m,
            Err(e) => {
                return Err(e);
            },
        };
        let address = master_key.address.clone();
        self.master_key = Some(master_key);
        Ok(address)
    }

    /// Derive a new validator key from the held master key; returns
    /// the validator public key.  Fails without a master key.
    pub fn derive_validator(&mut self, nonce: &Vec<u8>) -> (r: CryptoResult<Vec<u8>>)
        requires
            spec_manager_wf(old(self)),
        ensures
            spec_manager_wf(final(self)),
            old(self).master_key is None ==> r is Err && *final(self) == *old(self),
            old(self).master_key matches Some(m) ==> (r matches Ok(pk) && pk@ == ed25519_pub_of(
                spec_derived_sk(m.private_key@, m.created_at, nonce@),
            ) && final(self).validator_keys@.len() == old(self).validator_keys@.len() + 1
                && final(self).validator_keys@.last().public_key@ == pk@
                && !final(self).validator_keys@.last().revoked
                && final(self).validator_keys@.take(old(self).validator_keys@.len() as int)
                == old(self).validator_keys@),
            final(self).master_key == old(self).master_key,
    {
        let master_key = match &self.master_key {
            Some(m) => m,
            None => {
                return Err(CryptoError::KeyGenerationError(String::from_str("No master key")));
            },
        };
        let validator_key = match master_key.derive_validator_key(nonce) {
            Ok(v) => v,
            Err(e) => {
                return Err(e);
            },
        };
        let public_key = validator_key.public_key.clone();
        let ghost before = self.validator_keys@;
        self.validator_keys.push(validator_key);
        proof {
            assert(self.validator_keys@.take(before.len() as int) =~= before);
        }
        Ok(public_key)
    }

    /// The held master key, if any.
    pub fn master_key(&self) -> (r: Option<&MasterKey>)
        ensures
            self.master_key is Some <==> r is Some,
            r matches Some(m) ==> self.master_key matches Some(m2) && m == &m2,
    {
        self.master_key.as_ref()
    }

    /// The validator keys derived so far.
    pub fn validator_keys(&self) -> (r: &Vec<ValidatorKey>)
        ensures
            r@ == self.validator_keys@,
    {
        &self.validator_keys
    }

    /// Revoke the validator key with the given public key, wiping its
    /// private bytes.  Fails if no held key has that public key.
    pub fn revoke_validator(&mut self, public_key: &Vec<u8>) -> (r: CryptoResult<()>)
        requires
            spec_manager_wf(old(self)),
        ensures
            spec_manager_wf(final(self)),
            final(self).master_key == old(self).master_key,
            final(self).validator_keys@.len() == old(self).validator_keys@.len(),
            r is Ok ==> exists|i: int|
                0 <= i < old(self).validator_keys@.len()
                    && old(self).validator_keys@[i].public_key@ == public_key@
                    && (forall|j: int|
                    0 <= j < i ==> #[trigger] old(self).validator_keys@[j].public_key@
                        != public_key@) && #[trigger] final(self).validator_keys@[i].revoked
                    && final(self).validator_keys@[i].private_key@.len() == 0
                    && final(self).validator_keys@[i].public_key@
                    == old(self).validator_keys@[i].public_key@
                    && final(self).validator_keys@[i].master_address@
                    == old(self).validator_keys@[i].master_address@
                    && final(self).validator_keys@[i].nonce@
                    == old(self).validator_keys@[i].nonce@
                    && final(self).validator_keys@[i].created_at
                    == old(self).validator_keys@[i].created_at && (forall|j: int|
                    0 <= j < old(self).validator_keys@.len() && j != i
                        ==> #[trigger] final(self).validator_keys@[j]
                        == old(self).validator_keys@[j]),
            r is Err ==> final(self).validator_keys@ == old(self).validator_keys@ && (forall|i: int|
                0 <= i < old(self).validator_keys@.len()
                    ==> #[trigger] old(self).validator_keys@[i].public_key@ != public_key@),
            r matches Err(e) ==> e matches CryptoError::InvalidKeyFormat(m) && m@
                == "Validator key not found"@,
    {
        let mut i: usize = 0;
        while i < self.validator_keys.len()
            invariant
                i <= self.validator_keys@.len(),
                spec_manager_wf(self),
                self.validator_keys@.len() == old(self).validator_keys@.len(),
                self.validator_keys@ == old(self).validator_keys@,
                self.master_key == old(self).master_key,
                forall|j: int|
                    0 <= j < i ==> #[trigger] self.validator_keys@[j].public_key@ != public_key@,
            decreases self.validator_keys@.len() - i,
        {
            if crate::hexstr::bytes_eq(&self.validator_keys[i].public_key, public_key) {
                let ghost before = self.validator_keys@;
                let vk = &mut self.validator_keys[i];
                vk.revoke();
                proof {
                    assert(self.validator_keys@[i as int].revoked);
                    assert forall|j: int|
                        0 <= j < self.validator_keys@.len() implies spec_validator_wf(
                        #[trigger] &self.validator_keys@[j],
                    ) by {
                        if j != i {
                            assert(self.validator_keys@[j] == before[j]);
                        }
                    }
                }
                return Ok(());
            }
            i = i + 1;
        }
        Err(CryptoError::InvalidKeyFormat(String::from_str("Validator key not found")))
    }
}

impl Default for KeyManager {
    /// An empty key manager.
    fn default() -> (r: Self)
        ensures
            r.master_key is None,
            r.validator_keys@.len() == 0,
    {
        KeyManager::new()
    }
}

/// Derivation is deterministic: one master key and one nonce always
/// yield the same validator key pair.
pub proof fn lemma_derivation_deterministic(
    m: MasterKey,
    n1: Vec<u8>,
    n2: Vec<u8>,
    r1: CryptoResult<ValidatorKey>,
    r2: CryptoResult<ValidatorKey>,
)
    requires
        spec_master_wf(&m),
        n1@ == n2@,
        call_ensures(MasterKey::derive_validator_key, (&m, &n1), r1),
        call_ensures(MasterKey::derive_validator_key, (&m, &n2), r2),
    ensures
        r1 matches Ok(v1) && (r2 matches Ok(v2) && v1.private_key@ == v2.private_key@
            && v1.public_key@ == v2.public_key@),
{
}

/// A revoked validator key signs no message: every signing operation
/// returns an error.
pub proof fn lemma_revoked_key_signs_nothing(
    v: ValidatorKey,
    block_hash: Vec<u8>,
    tx_hash: Vec<u8>,
    tx_data: Vec<u8>,
    vote: bool,
    valid: bool,
    r_vote: CryptoResult<Vec<u8>>,
    r_color: CryptoResult<Vec<u8>>,
    r_tx: CryptoResult<Vec<u8>>,
)
    requires
        spec_validator_wf(&v),
        v.revoked,
        call_ensures(ValidatorKey::sign_vote, (&v, &block_hash, vote), r_vote),
        call_ensures(ValidatorKey::sign_color_validation, (&v, &tx_hash, valid), r_color),
        call_ensures(ValidatorKey::sign_transaction, (&v, &tx_data), r_tx),
    ensures
        r_vote is Err,
        r_color is Err,
        r_tx is Err,
{
}

} // verus!
