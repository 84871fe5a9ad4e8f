//! The service: envelope encryption over the key ring, content hashing and
//! timestamp-bound signatures under a long-lived signing key.

use vstd::prelude::*;
use vstd::utf8::{decode_utf8, encode_utf8, valid_utf8};
use crate::compare::{starts_with_argon2_marker, text_eq};
use crate::error::SecurityError;
use crate::keyring::{has_id, is_current_at, KeyEntry, KeyRing, ring_wf, KEY_LEN};
use crate::primitives::{
    argon2_hash, argon2_marker, hex_digit, argon2_phc, argon2_salt_ok, argon2_verifies, argon2_verify, aes_gcm_max_input, phc_parses, aes256_gcm_open, aes256_gcm_seal, aes256_gcm_sealed, base64_decode,
    base64_encode, base64_text, canonical_json, context_json, has_argon2_marker, hmac_sha256, hmac_sha256_tag, random_bytes, rfc3339,
    rfc3339_text, utc_now,
    utf8_string, hex_encode,
    hex_lower, lemma_hex_lower_first, sha256, sha256_digest,
};
use crate::timestamp::{is_fresh, is_fresh_spec, Timestamp};
use std::collections::BTreeMap;

verus! {

pub struct EncryptionRequest {
    pub data: String,
    pub key_id: Option<String>,
    pub context: Option<BTreeMap<String, String>>,
}

pub struct EncryptionResponse {
    pub encrypted_data: String,
    pub key_id: String,
    pub nonce: String,
    pub context_hash: Option<String>,
}

pub struct DecryptionRequest {
    pub encrypted_data: String,
    pub key_id: String,
    pub nonce: String,
    pub context_hash: Option<String>,
}

pub struct HashRequest {
    pub data: String,
    pub salt: Option<String>,
    pub algorithm: Option<String>,
}

pub struct HashResponse {
    pub hash: String,
    pub salt: String,
    pub algorithm: String,
}

pub struct SignatureRequest {
    pub data: String,
    pub key_id: Option<String>,
}

pub struct SignatureResponse {
    pub signature: String,
    pub key_id: String,
    pub timestamp: Timestamp,
}

pub struct CryptoService {
    signing_key: Vec<u8>,
    keys: KeyRing,
}

/// The view of an optional text.
pub open spec fn opt_text(o: Option<&str>) -> Option<Seq<char>> {
    match o {
        Some(s) => Some(s@),
        None => None,
    }
}

/// The fast digest of a text: SHA-256 of its UTF-8 bytes, in hexadecimal.
pub open spec fn fast_digest_hex(data: Seq<char>) -> Seq<char> {
    hex_lower(sha256_digest(encode_utf8(data)))
}

/// `h` is what hashing `data` produces: the fast digest without a salt, the
/// Argon2 PHC string with one.
pub open spec fn hash_produced(data: Seq<char>, salt: Option<Seq<char>>, h: Seq<char>) -> bool {
    match salt {
        None => h == fast_digest_hex(data),
        Some(s) => h == argon2_phc(encode_utf8(data), s) && has_argon2_marker(h),
    }
}

/// `h` is a hash of `data`: by its prefix an Argon2 string made from `data`
/// with some salt, or else the fast digest of `data`.
pub open spec fn hash_verifies(data: Seq<char>, h: Seq<char>) -> bool {
    if has_argon2_marker(h) {
        exists|s: Seq<char>| h == #[trigger] argon2_phc(encode_utf8(data), s)
    } else {
        h == fast_digest_hex(data)
    }
}

/// The view of an optional string.
pub open spec fn opt_string(o: Option<String>) -> Option<Seq<char>> {
    match o {
        Some(s) => Some(s@),
        None => None,
    }
}

/// The contents of an optional context.
pub open spec fn context_view(c: Option<BTreeMap<String, String>>) -> Option<
    Map<Seq<char>, Seq<char>>,
> {
    match c {
        Some(m) => Some(m.deep_view()),
        None => None,
    }
}

/// The hash that binds a context: the fast digest of its canonical JSON text.
pub open spec fn context_digest(ctx: Map<Seq<char>, Seq<char>>) -> Seq<char> {
    fast_digest_hex(canonical_json(ctx))
}

/// The associated data bound by a context hash: its UTF-8 bytes, or nothing.
pub open spec fn aad_of(context_hash: Option<Seq<char>>) -> Seq<u8> {
    match context_hash {
        Some(h) => encode_utf8(h),
        None => Seq::empty(),
    }
}

/// `key` is what `key_id` selects in `ring`: the key of that identifier, or
/// the current key when none is named.
pub open spec fn selects(ring: Seq<KeyEntry>, key_id: Option<Seq<char>>, key: KeyEntry) -> bool {
    match key_id {
        Some(k) => key.id@ == k && exists|i: int| 0 <= i < ring.len() && #[trigger] ring[i] == key,
        None => exists|k: int| is_current_at(ring, k) && #[trigger] ring[k] == key,
    }
}

/// `resp` is the envelope of `plaintext` sealed under `key` with `nonce`
/// and bound to `context`.
pub open spec fn is_envelope(
    key: KeyEntry,
    plaintext: Seq<char>,
    context: Option<Map<Seq<char>, Seq<char>>>,
    nonce: Seq<u8>,
    resp: EncryptionResponse,
) -> bool {
    &&& resp.key_id@ == key.id@
    &&& encode_utf8(plaintext).len() <= aes_gcm_max_input()
    &&& resp.nonce@ == base64_text(nonce)
    &&& opt_string(resp.context_hash) == match context {
        Some(c) => Some(context_digest(c)),
        None => None,
    }
    &&& resp.context_hash is Some ==> resp.context_hash->Some_0@.len() == 64
    &&& resp.encrypted_data@ == base64_text(
        aes256_gcm_sealed(
            key.material@,
            nonce,
            aad_of(opt_string(resp.context_hash)),
            encode_utf8(plaintext),
        ),
    )
    &&& aes256_gcm_sealed(
        key.material@,
        nonce,
        aad_of(opt_string(resp.context_hash)),
        encode_utf8(plaintext),
    ).len() == encode_utf8(plaintext).len() + 16
}

/// `key_id` names a key that `ring` holds, or names none and `ring` is not empty.
pub open spec fn key_resolves(ring: Seq<KeyEntry>, key_id: Option<Seq<char>>) -> bool {
    match key_id {
        Some(k) => has_id(ring, k),
        None => ring.len() > 0,
    }
}

/// The request's nonce is the text of some 96-bit value.
pub open spec fn nonce_ok(req: DecryptionRequest) -> bool {
    exists|n: Seq<u8>| n.len() == 12 && #[trigger] base64_text(n) == req.nonce@
}

/// Under the key of `ring` that the request names, the nonce the request
/// encodes and the context hash it presents, sealing `bytes` gives the
/// ciphertext the request encodes.
pub open spec fn opens_to(ring: Seq<KeyEntry>, req: DecryptionRequest, bytes: Seq<u8>) -> bool {
    exists|i: int, n: Seq<u8>|
        #![trigger ring[i], base64_text(n)]
        0 <= i < ring.len() && ring[i].id@ == req.key_id@ && n.len() == 12 && base64_text(n)
            == req.nonce@ && bytes.len() <= aes_gcm_max_input() && req.encrypted_data@ == base64_text(
            aes256_gcm_sealed(ring[i].material@, n, aad_of(opt_string(req.context_hash)), bytes),
        )
}

/// The message a signature covers: the UTF-8 bytes of the data followed by
/// those of the timestamp's RFC 3339 text.
pub open spec fn signed_message(data: Seq<char>, stamp: Seq<char>) -> Seq<u8> {
    encode_utf8(data) + encode_utf8(stamp)
}

/// The hexadecimal HMAC-SHA-256 signature of `data` at `t` under `key`, if
/// `t` can be rendered as RFC 3339 text.
pub open spec fn signature_text(key: Seq<u8>, data: Seq<char>, t: Timestamp) -> Option<
    Seq<char>,
> {
    match rfc3339_text(t.secs as int, t.nanos as int) {
        Some(stamp) => Some(hex_lower(hmac_sha256_tag(key, signed_message(data, stamp)))),
        None => None,
    }
}

/// `sig`, made at `t`, is accepted at `now`: `t` is fresh and `sig` is the
/// signature of `data` at `t`.
pub open spec fn signature_accepted(
    key: Seq<u8>,
    data: Seq<char>,
    sig: Seq<char>,
    t: Timestamp,
    now: Timestamp,
) -> bool {
    is_fresh_spec(t, now) && signature_text(key, data, t) == Some(sig)
}

impl CryptoService {
    pub closed spec fn key_ring(&self) -> Seq<KeyEntry> {
        self.keys@
    }

    pub closed spec fn signing_key(&self) -> Seq<u8> {
        self.signing_key@
    }

    pub open spec fn wf(&self) -> bool {
        ring_wf(self.key_ring())
    }

    /// A service whose signing key is the UTF-8 bytes of `master_key`, with
    /// one freshly generated encryption key. `CryptoInitError` unless those
    /// bytes are a 256-bit key; `EntropyFailure` if no key can be generated.
    pub fn new(master_key: &str) -> (r: Result<CryptoService, SecurityError>)
        ensures
            r is Err && r->Err_0 == SecurityError::CryptoInitError <==> encode_utf8(master_key@).len()
                != KEY_LEN,
            r is Err ==> r->Err_0 == SecurityError::CryptoInitError || r->Err_0
                == SecurityError::EntropyFailure || r->Err_0 == SecurityError::CryptoError,
            r is Ok ==> r->Ok_0.wf() && r->Ok_0.signing_key() == encode_utf8(master_key@)
                && r->Ok_0.key_ring().len() == 1,
    {
        let bytes = master_key.as_bytes();
        if bytes.len() != KEY_LEN {
            return Err(SecurityError::CryptoInitError);
        }
        let mut keys = KeyRing::new();
        match keys.generate_and_activate() {
            Ok(_) => {},
            Err(e) => {
                return Err(e);
            },
        }
        Ok(CryptoService { signing_key: vstd::slice::slice_to_vec(bytes), keys })
    }

    /// True iff the key ring holds at least one key.
    pub fn is_ready(&self) -> (r: bool)
        ensures
            r == (self.key_ring().len() > 0),
    {
        self.keys.is_ready()
    }

    /// Generates and activates a new encryption key, which becomes the current
    /// one (see `KeyRing::generate_and_activate`), and returns its identifier.
    pub fn rotate_keys(&mut self) -> (r: Result<String, SecurityError>)
        requires
            old(self).wf(),
        ensures
            final(self).wf(),
            final(self).signing_key() == old(self).signing_key(),
            r is Err ==> (r->Err_0 == SecurityError::EntropyFailure || r->Err_0
                == SecurityError::CryptoError) && final(self).key_ring() == old(self).key_ring(),
            r is Ok ==> !has_id(old(self).key_ring(), r->Ok_0@),
            r is Ok ==> final(self).key_ring().len() == if old(self).key_ring().len()
                < crate::keyring::RETENTION_LIMIT {
                old(self).key_ring().len() + 1 as int
            } else {
                crate::keyring::RETENTION_LIMIT as int
            },
            r is Ok ==> is_current_at(final(self).key_ring(), final(self).key_ring().len() - 1)
                && final(self).key_ring().last().id@ == r->Ok_0@,
            r is Ok ==> exists|e: KeyEntry|
                e.id@ == r->Ok_0@ && e.material@.len() == KEY_LEN
                    && #[trigger] crate::keyring::after_insert(
                    old(self).key_ring(),
                    e,
                    final(self).key_ring(),
                ),
    {
        let r = self.keys.generate_and_activate();
        proof {
            if r is Ok {
                let e = choose|e: KeyEntry|
                    e.id@ == r->Ok_0@ && e.material@.len() == KEY_LEN
                        && #[trigger] crate::keyring::after_insert(old(self).keys@, e, self.keys@);
                assert(crate::keyring::after_insert(old(self).key_ring(), e, self.key_ring()));
            }
        }
        r
    }

    /// The key that `key_id` selects: `KeyRingEmpty` when none is named and
    /// the ring is empty, `KeyNotFound` when the named one is absent.
    fn resolve_key(&self, key_id: &Option<String>) -> (r: Result<&KeyEntry, SecurityError>)
        requires
            self.wf(),
        ensures
            r is Err && r->Err_0 == SecurityError::KeyRingEmpty <==> key_id is None
                && self.key_ring().len() == 0,
            r is Err && r->Err_0 == SecurityError::KeyNotFound <==> key_id is Some && !has_id(
                self.key_ring(),
                key_id->Some_0@,
            ),
            r is Err ==> r->Err_0 == SecurityError::KeyRingEmpty || r->Err_0
                == SecurityError::KeyNotFound,
            r is Ok ==> selects(self.key_ring(), opt_string(*key_id), *r->Ok_0)
                && r->Ok_0.material@.len() == KEY_LEN,
    {
        match key_id {
            Some(k) => self.keys.get(k.as_str()),
            None => {
                let current = match self.keys.current_key_id() {
                    Ok(c) => c,
                    Err(e) => {
                        return Err(e);
                    },
                };
                let ghost ring = self.keys@;
                let e = self.keys.get(current.as_str());
                proof {
                    let k = choose|k: int| is_current_at(ring, k) && ring[k].id@ == current@;
                    assert(has_id(ring, current@));
                    if e is Ok {
                        let i = choose|i: int| 0 <= i < ring.len() && ring[i] == *e->Ok_0;
                        assert(ring[i].id@ == ring[k].id@);
                        assert(i == k);
                    }
                }
                e
            },
        }
    }

    /// Seals `plaintext` under `key` with `nonce`, bound to the digest of
    /// `context` when there is one.
    fn seal_with_key(
        &self,
        key: &KeyEntry,
        plaintext: &str,
        context: &Option<BTreeMap<String, String>>,
        nonce: &[u8],
    ) -> (r: Result<EncryptionResponse, SecurityError>)
        requires
            key.material@.len() == KEY_LEN,
            nonce@.len() == 12,
        ensures
            r is Ok ==> is_envelope(*key, plaintext@, context_view(*context), nonce@, r->Ok_0),
            r is Ok <==> encode_utf8(plaintext@).len() <= aes_gcm_max_input(),
            r is Err ==> r->Err_0 == SecurityError::CryptoError,
    {
        let context_hash: Option<String> = match context {
            Some(c) => match context_json(c) {
                Ok(j) => match self.compute_hash(j.as_str(), None) {
                    Ok(h) => Some(h),
                    Err(_) => {
                        return Err(SecurityError::CryptoError);
                    },
                },
                Err(_) => {
                    return Err(SecurityError::CryptoError);
                },
            },
            None => None,
        };
        let mut aad: Vec<u8> = Vec::new();
        match &context_hash {
            Some(h) => aad.extend_from_slice(h.as_str().as_bytes()),
            None => {},
        }
        assert(aad@ == aad_of(opt_string(context_hash)));
        let sealed = match aes256_gcm_seal(
            key.material.as_slice(),
            nonce,
            aad.as_slice(),
            plaintext.as_bytes(),
        ) {
            Ok(c) => c,
            Err(_) => {
                return Err(SecurityError::CryptoError);
            },
        };
        Ok(
            EncryptionResponse {
                encrypted_data: base64_encode(sealed.as_slice()),
                key_id: key.id.clone(),
                nonce: base64_encode(nonce),
                context_hash,
            },
        )
    }

    /// Encrypts the request's text with the given nonce (see `encrypt_data`,
    /// which draws a fresh one). `InvalidNonce` if the nonce is not 96 bits.
    pub fn encrypt_with_nonce(&self, request: &EncryptionRequest, nonce: &[u8]) -> (r: Result<
        EncryptionResponse,
        SecurityError,
    >)
        requires
            self.wf(),
        ensures
            r is Err && r->Err_0 == SecurityError::KeyRingEmpty <==> request.key_id is None
                && self.key_ring().len() == 0,
            r is Err && r->Err_0 == SecurityError::KeyNotFound <==> request.key_id is Some
                && !has_id(self.key_ring(), request.key_id->Some_0@),
            r is Err && r->Err_0 == SecurityError::InvalidNonce <==> (request.key_id is None
                ==> self.key_ring().len() > 0) && (request.key_id is Some ==> has_id(
                self.key_ring(),
                request.key_id->Some_0@,
            )) && nonce@.len() != 12,
            key_resolves(self.key_ring(), opt_string(request.key_id)) && nonce@.len() == 12
                && encode_utf8(request.data@).len() <= aes_gcm_max_input() ==> r is Ok,
            r is Err ==> r->Err_0 == SecurityError::KeyRingEmpty || r->Err_0
                == SecurityError::KeyNotFound || r->Err_0 == SecurityError::InvalidNonce
                || r->Err_0 == SecurityError::CryptoError,
            r is Ok ==> exists|key: KeyEntry|
                selects(self.key_ring(), opt_string(request.key_id), key) && #[trigger] is_envelope(
                    key,
                    request.data@,
                    context_view(request.context),
                    nonce@,
                    r->Ok_0,
                ),
    {
        let key = match self.resolve_key(&request.key_id) {
            Ok(k) => k,
            Err(e) => {
                return Err(e);
            },
        };
        if nonce.len() != 12 {
            return Err(SecurityError::InvalidNonce);
        }
        self.seal_with_key(key, request.data.as_str(), &request.context, nonce)
    }

    /// Encrypts the request's text under the key it names (the current key
    /// when it names none) with a fresh random 96-bit nonce, bound to the
    /// digest of its context when it has one.
    pub fn encrypt_data(&self, request: EncryptionRequest) -> (r: Result<
        EncryptionResponse,
        SecurityError,
    >)
        requires
            self.wf(),
        ensures
            r is Err && r->Err_0 == SecurityError::KeyRingEmpty <==> request.key_id is None
                && self.key_ring().len() == 0,
            r is Err && r->Err_0 == SecurityError::KeyNotFound <==> request.key_id is Some
                && !has_id(self.key_ring(), request.key_id->Some_0@),
            key_resolves(self.key_ring(), opt_string(request.key_id)) && encode_utf8(
                request.data@,
            ).len() <= aes_gcm_max_input() ==> r is Ok || r->Err_0
                == SecurityError::EntropyFailure,
            r is Err ==> r->Err_0 == SecurityError::KeyRingEmpty || r->Err_0
                == SecurityError::KeyNotFound || r->Err_0 == SecurityError::EntropyFailure
                || r->Err_0 == SecurityError::CryptoError,
            r is Ok ==> exists|key: KeyEntry, nonce: Seq<u8>|
                nonce.len() == 12 && selects(self.key_ring(), opt_string(request.key_id), key)
                    && #[trigger] is_envelope(
                    key,
                    request.data@,
                    context_view(request.context),
                    nonce,
                    r->Ok_0,
                ),
    {
        match self.resolve_key(&request.key_id) {
            Ok(_) => {},
            Err(e) => {
                return Err(e);
            },
        }
        let nonce = match random_bytes(12) {
            Ok(n) => n,
            Err(_) => {
                return Err(SecurityError::EntropyFailure);
            },
        };
        let r = self.encrypt_with_nonce(&request, nonce.as_slice());
        proof {
            if r is Ok {
                let key = choose|key: KeyEntry|
                    selects(self.key_ring(), opt_string(request.key_id), key) && #[trigger] is_envelope(
                        key,
                        request.data@,
                        context_view(request.context),
                        nonce@,
                        r->Ok_0,
                    );
                assert(is_envelope(key, request.data@, context_view(request.context), nonce@, r->Ok_0));
            }
        }
        r
    }

    /// Decrypts an envelope: `KeyNotFound` if the ring no longer holds the
    /// named key, `InvalidNonce` if the nonce is not the text of 96 bits,
    /// `DecryptionFailed` (with no further detail) if the ciphertext does not
    /// authenticate under that key, nonce and context hash, and
    /// `InvalidEncoding` if what it opens to is not UTF-8 text.
    pub fn decrypt_data(&self, request: DecryptionRequest) -> (r: Result<String, SecurityError>)
        requires
            self.wf(),
        ensures
            r is Err && r->Err_0 == SecurityError::KeyNotFound <==> !has_id(
                self.key_ring(),
                request.key_id@,
            ),
            r is Err && r->Err_0 == SecurityError::InvalidNonce <==> has_id(
                self.key_ring(),
                request.key_id@,
            ) && !nonce_ok(request),
            r is Err && r->Err_0 == SecurityError::DecryptionFailed <==> has_id(
                self.key_ring(),
                request.key_id@,
            ) && nonce_ok(request) && !exists|b: Seq<u8>| #[trigger]
                opens_to(self.key_ring(), request, b),
            r is Err && r->Err_0 == SecurityError::InvalidEncoding <==> exists|b: Seq<u8>|
                #[trigger] opens_to(self.key_ring(), request, b) && !valid_utf8(b),
            r is Err ==> r->Err_0 == SecurityError::KeyNotFound || r->Err_0
                == SecurityError::InvalidNonce || r->Err_0 == SecurityError::DecryptionFailed
                || r->Err_0 == SecurityError::InvalidEncoding,
            forall|b: Seq<u8>|
                #[trigger] opens_to(self.key_ring(), request, b) && valid_utf8(b) ==> r is Ok
                    && r->Ok_0@ == decode_utf8(b),
            r is Ok ==> opens_to(self.key_ring(), request, encode_utf8(r->Ok_0@)),
    {
        let ghost ring = self.keys@;
        let ghost aad_spec = aad_of(opt_string(request.context_hash));
        let key = match self.keys.get(request.key_id.as_str()) {
            Ok(k) => k,
            Err(e) => {
                return Err(e);
            },
        };
        proof {
            let j = choose|j: int| 0 <= j < ring.len() && ring[j] == *key;
            assert forall|i: int| 0 <= i < ring.len() && ring[i].id@ == request.key_id@ implies ring[i]
                == *key by {
                if i != j {
                    assert(ring[i].id@ != ring[j].id@);
                }
            }
        }
        let nonce = match base64_decode(request.nonce.as_str()) {
            Ok(n) => n,
            Err(_) => {
                assert(!nonce_ok(request));
                return Err(SecurityError::InvalidNonce);
            },
        };
        if nonce.len() != 12 {
            assert(!nonce_ok(request));
            return Err(SecurityError::InvalidNonce);
        }
        assert(nonce_ok(request)) by {
            assert(base64_text(nonce@) == request.nonce@);
        }
        let ciphertext = match base64_decode(request.encrypted_data.as_str()) {
            Ok(c) => c,
            Err(_) => {
                assert forall|b: Seq<u8>| !#[trigger] opens_to(ring, request, b) by {
                    if opens_to(ring, request, b) {
                        let (i, n) = choose|i: int, n: Seq<u8>|
                            #![trigger ring[i], base64_text(n)]
                            0 <= i < ring.len() && ring[i].id@ == request.key_id@ && n.len() == 12
                                && base64_text(n) == request.nonce@ && request.encrypted_data@
                                == base64_text(
                                aes256_gcm_sealed(ring[i].material@, n, aad_spec, b),
                            );
                        assert(request.encrypted_data@ == base64_text(
                            aes256_gcm_sealed(ring[i].material@, n, aad_spec, b),
                        ));
                    }
                }
                return Err(SecurityError::DecryptionFailed);
            },
        };
        let mut aad: Vec<u8> = Vec::new();
        match &request.context_hash {
            Some(h) => aad.extend_from_slice(h.as_str().as_bytes()),
            None => {},
        }
        assert(aad@ == aad_spec);
        proof {
            // Any opening of the request is an opening of the decoded ciphertext
            // under the named key and the decoded nonce.
            assert forall|b: Seq<u8>| #[trigger] opens_to(ring, request, b) implies ciphertext@
                == aes256_gcm_sealed(key.material@, nonce@, aad_spec, b) by {
                let (i, n) = choose|i: int, n: Seq<u8>|
                    #![trigger ring[i], base64_text(n)]
                    0 <= i < ring.len() && ring[i].id@ == request.key_id@ && n.len() == 12
                        && base64_text(n) == request.nonce@ && request.encrypted_data@ == base64_text(
                        aes256_gcm_sealed(ring[i].material@, n, aad_spec, b),
                    );
                assert(ring[i] == *key);
                assert(n == nonce@);
                assert(request.encrypted_data@ == base64_text(
                    aes256_gcm_sealed(key.material@, nonce@, aad_spec, b),
                ));
            }
        }
        let plain = match aes256_gcm_open(
            key.material.as_slice(),
            nonce.as_slice(),
            aad.as_slice(),
            ciphertext.as_slice(),
        ) {
            Ok(p) => p,
            Err(_) => {
                assert forall|b: Seq<u8>| !#[trigger] opens_to(ring, request, b) by {
                    if opens_to(ring, request, b) {
                        assert(ciphertext@ == aes256_gcm_sealed(key.material@, nonce@, aad_spec, b));
                    }
                }
                return Err(SecurityError::DecryptionFailed);
            },
        };
        let ghost p = plain@;
        proof {
            let ki = choose|j: int| 0 <= j < ring.len() && ring[j] == *key;
            assert(base64_text(ciphertext@) == request.encrypted_data@);
            assert(base64_text(nonce@) == request.nonce@);
            assert(opens_to(ring, request, p)) by {
                assert(ring[ki].id@ == request.key_id@ && nonce@.len() == 12 && base64_text(nonce@)
                    == request.nonce@ && request.encrypted_data@ == base64_text(
                    aes256_gcm_sealed(ring[ki].material@, nonce@, aad_spec, p),
                ));
            }
            assert forall|b: Seq<u8>| #[trigger] opens_to(ring, request, b) implies b == p by {
                assert(ciphertext@ == aes256_gcm_sealed(key.material@, nonce@, aad_spec, b));
            }
        }
        match utf8_string(plain) {
            Some(s) => {
                proof {
                    vstd::utf8::decode_utf8_encode_utf8(p);
                }
                Ok(s)
            },
            None => Err(SecurityError::InvalidEncoding),
        }
    }

    /// The signature of `data` at `t`, `None` if `t` cannot be rendered.
    fn signature_of(&self, data: &str, t: &Timestamp) -> (r: Option<String>)
        ensures
            r is Some <==> signature_text(self.signing_key(), data@, *t) is Some,
            t.renderable() ==> r is Some,
            r is Some ==> signature_text(self.signing_key(), data@, *t) == Some(r->Some_0@),
            r is Some ==> r->Some_0@.len() == 64,
    {
        let stamp = match rfc3339(t) {
            Some(s) => s,
            None => {
                return None;
            },
        };
        let mut message: Vec<u8> = Vec::new();
        message.extend_from_slice(data.as_bytes());
        message.extend_from_slice(stamp.as_str().as_bytes());
        assert(message@ =~= signed_message(data@, stamp@));
        let tag = hmac_sha256(self.signing_key.as_slice(), message.as_slice());
        proof {
            lemma_hex_lower_first(tag@);
        }
        Some(hex_encode(tag.as_slice()))
    }

    /// Signs `data` at the instant `now` with the signing key. The key label
    /// is informational (`"default"` when none is given). `CryptoError` if
    /// `now` cannot be rendered as RFC 3339 text.
    pub fn sign_at(&self, data: &str, key_id: Option<&str>, now: Timestamp) -> (r: Result<
        SignatureResponse,
        SecurityError,
    >)
        ensures
            r is Err <==> signature_text(self.signing_key(), data@, now) is None,
            r is Err ==> r->Err_0 == SecurityError::CryptoError,
            now.renderable() ==> r is Ok,
            r is Ok ==> signature_text(self.signing_key(), data@, now) == Some(r->Ok_0.signature@),
            r is Ok ==> r->Ok_0.timestamp == now && r->Ok_0.signature@.len() == 64,
            r is Ok ==> r->Ok_0.key_id@ == match key_id {
                Some(k) => k@,
                None => "default"@,
            },
    {
        let signature = match self.signature_of(data, &now) {
            Some(s) => s,
            None => {
                return Err(SecurityError::CryptoError);
            },
        };
        let key_label = match key_id {
            Some(k) => String::from_str(k),
            None => String::from_str("default"),
        };
        Ok(SignatureResponse { signature, key_id: key_label, timestamp: now })
    }

    /// Signs `data` at the current time (see `sign_at`).
    pub fn generate_signature(&self, data: &str, key_id: Option<&str>) -> (r: Result<
        SignatureResponse,
        SecurityError,
    >)
        ensures
            r is Err ==> r->Err_0 == SecurityError::CryptoError,
            r is Ok ==> signature_text(self.signing_key(), data@, r->Ok_0.timestamp) == Some(
                r->Ok_0.signature@,
            ),
            r is Ok ==> r->Ok_0.key_id@ == match key_id {
                Some(k) => k@,
                None => "default"@,
            },
    {
        let now = utc_now();
        self.sign_at(data, key_id, now)
    }

    /// Checks, at the instant `now`, a signature of `data` made at
    /// `timestamp`: false if `timestamp` is more than an hour old, otherwise
    /// whether `signature` equals, compared in constant time, the signature
    /// recomputed with the signing key. `CryptoError` if a fresh
    /// `timestamp` cannot be rendered as RFC 3339 text.
    pub fn verify_signature_at(
        &self,
        data: &str,
        signature: &str,
        timestamp: &Timestamp,
        now: &Timestamp,
    ) -> (r: Result<bool, SecurityError>)
        ensures
            r is Err <==> is_fresh_spec(*timestamp, *now) && signature_text(
                self.signing_key(),
                data@,
                *timestamp,
            ) is None,
            r is Err ==> r->Err_0 == SecurityError::CryptoError,
            timestamp.renderable() ==> r is Ok,
            r is Ok ==> r->Ok_0 == signature_accepted(
                self.signing_key(),
                data@,
                signature@,
                *timestamp,
                *now,
            ),
    {
        if !is_fresh(timestamp, now) {
            return Ok(false);
        }
        match self.signature_of(data, timestamp) {
            Some(expected) => Ok(text_eq(expected.as_str(), signature)),
            None => Err(SecurityError::CryptoError),
        }
    }

    /// Checks a signature of `data` made at `timestamp` at the current time
    /// (see `verify_signature_at`).
    pub fn verify_signature(&self, data: &str, signature: &str, timestamp: &Timestamp) -> (r:
        Result<bool, SecurityError>)
        ensures
            r is Err ==> r->Err_0 == SecurityError::CryptoError && signature_text(
                self.signing_key(),
                data@,
                *timestamp,
            ) is None,
            signature_text(self.signing_key(), data@, *timestamp) is Some ==> r is Ok,
            timestamp.renderable() ==> r is Ok,
            r is Ok && r->Ok_0 ==> signature_text(self.signing_key(), data@, *timestamp) == Some(
                signature@,
            ),
    {
        let now = utc_now();
        self.verify_signature_at(data, signature, timestamp, &now)
    }

    /// `size` bytes from the secure random source; `EntropyFailure` if it fails.
    pub fn secure_random(&self, size: usize) -> (r: Result<Vec<u8>, SecurityError>)
        ensures
            r is Ok ==> r->Ok_0@.len() == size,
            r is Err ==> r->Err_0 == SecurityError::EntropyFailure,
    {
        match random_bytes(size) {
            Ok(b) => Ok(b),
            Err(_) => Err(SecurityError::EntropyFailure),
        }
    }

    /// The fast digest of `data` when `salt` is `None`; the Argon2 hash of
    /// `data` with `salt` otherwise, failing with `InvalidSalt` when the
    /// password hash refuses the salt.
    pub fn compute_hash(&self, data: &str, salt: Option<&str>) -> (r: Result<String, SecurityError>)
        ensures
            salt is None ==> r is Ok && r->Ok_0@.len() == 64,
            salt is Some && encode_utf8(data@).len() <= 0xFFFF_FFFF ==> (r is Ok <==> argon2_salt_ok(
                salt->Some_0@,
            )),
            r is Ok ==> hash_produced(data@, opt_text(salt), r->Ok_0@),
            r is Err ==> salt is Some && r->Err_0 == SecurityError::InvalidSalt,
    {
        proof {
            vstd::utf8::encode_utf8_decode_utf8(data@);
        }
        match salt {
            Some(s) => match argon2_hash(data.as_bytes(), s) {
                Ok(h) => Ok(h),
                Err(_) => Err(SecurityError::InvalidSalt),
            },
            None => {
                let digest = sha256(data.as_bytes());
                proof {
                    lemma_hex_lower_first(digest@);
                }
                Ok(hex_encode(digest.as_slice()))
            },
        }
    }

    /// Whether `hash` is a hash of `data`. A hash with the Argon2 prefix is
    /// checked by Argon2 (`InvalidHashFormat` if it does not parse); any
    /// other is compared, in constant time, with the fast digest of `data`.
    pub fn verify_hash(&self, data: &str, hash: &str) -> (r: Result<bool, SecurityError>)
        ensures
            !has_argon2_marker(hash@) ==> r == Ok::<bool, SecurityError>(
                hash_verifies(data@, hash@),
            ),
            hash_verifies(data@, hash@) ==> r == Ok::<bool, SecurityError>(true),
            has_argon2_marker(hash@) ==> (r is Ok <==> phc_parses(hash@)),
            has_argon2_marker(hash@) && r is Ok ==> r->Ok_0 == argon2_verifies(
                encode_utf8(data@),
                hash@,
            ),
            r is Err ==> has_argon2_marker(hash@) && r->Err_0 == SecurityError::InvalidHashFormat,
    {
        if starts_with_argon2_marker(hash) {
            match argon2_verify(data.as_bytes(), hash) {
                Ok(b) => Ok(b),
                Err(_) => Err(SecurityError::InvalidHashFormat),
            }
        } else {
            let computed = self.compute_hash(data, None);
            match computed {
                Ok(c) => Ok(text_eq(c.as_str(), hash)),
                Err(e) => Err(e),
            }
        }
    }

    /// The response to a hash request: the hash, the salt used (`"none"`
    /// without one) and the algorithm label given (`"sha256"` without one).
    pub fn hash_request(&self, request: &HashRequest) -> (r: Result<HashResponse, SecurityError>)
        ensures
            request.salt is None ==> r is Ok,
            r is Ok ==> hash_produced(
                request.data@,
                match request.salt {
                    Some(s) => Some(s@),
                    None => None,
                },
                r->Ok_0.hash@,
            ),
            r is Ok ==> r->Ok_0.salt@ == match request.salt {
                Some(s) => s@,
                None => "none"@,
            },
            r is Ok ==> r->Ok_0.algorithm@ == match request.algorithm {
                Some(a) => a@,
                None => "sha256"@,
            },
            r is Err ==> request.salt is Some && r->Err_0 == SecurityError::InvalidSalt,
    {
        let salt: Option<&str> = match &request.salt {
            Some(s) => Some(s.as_str()),
            None => None,
        };
        let hash = match self.compute_hash(request.data.as_str(), salt) {
            Ok(h) => h,
            Err(e) => {
                return Err(e);
            },
        };
        let salt_out = match &request.salt {
            Some(s) => s.clone(),
            None => String::from_str("none"),
        };
        let algorithm = match &request.algorithm {
            Some(a) => a.clone(),
            None => String::from_str("sha256"),
        };
        Ok(HashResponse { hash, salt: salt_out, algorithm })
    }
}

/// Whatever hashing `data` produces, with or without a salt, verifies as a
/// hash of `data`.
pub proof fn lemma_hash_duality(data: Seq<char>, salt: Option<Seq<char>>, h: Seq<char>)
    requires
        hash_produced(data, salt, h),
    ensures
        hash_verifies(data, h),
{
    match salt {
        None => {
            let d = sha256_digest(encode_utf8(data));
            lemma_hex_lower_first(d);
            if d.len() > 0 && h.len() >= 7 {
                assert(h.subrange(0, 7)[0] == h[0]);
                assert(argon2_marker()[0] == '$');
                assert(hex_digit(d[0] / 16) != '$');
            }
        },
        Some(s) => {
            assert(h == argon2_phc(encode_utf8(data), s));
        },
    }
}

/// Decrypting an envelope that encryption produced, presenting the same key
/// identifier, nonce, ciphertext and context hash while the ring still holds
/// the key, opens to the plaintext's UTF-8 bytes, which decode back to it.
pub proof fn lemma_round_trip(
    ring: Seq<KeyEntry>,
    key_id: Option<Seq<char>>,
    key: KeyEntry,
    plaintext: Seq<char>,
    context: Option<Map<Seq<char>, Seq<char>>>,
    nonce: Seq<u8>,
    resp: EncryptionResponse,
    req: DecryptionRequest,
)
    requires
        ring_wf(ring),
        nonce.len() == 12,
        selects(ring, key_id, key),
        is_envelope(key, plaintext, context, nonce, resp),
        req.encrypted_data@ == resp.encrypted_data@,
        req.key_id@ == resp.key_id@,
        req.nonce@ == resp.nonce@,
        opt_string(req.context_hash) == opt_string(resp.context_hash),
    ensures
        opens_to(ring, req, encode_utf8(plaintext)),
        valid_utf8(encode_utf8(plaintext)),
        decode_utf8(encode_utf8(plaintext)) == plaintext,
{
    vstd::utf8::encode_utf8_valid_utf8(plaintext);
    vstd::utf8::encode_utf8_decode_utf8(plaintext);
    let i = match key_id {
        Some(k) => choose|i: int| 0 <= i < ring.len() && #[trigger] ring[i] == key,
        None => choose|k: int| is_current_at(ring, k) && #[trigger] ring[k] == key,
    };
    assert(0 <= i < ring.len() && ring[i] == key);
    assert(base64_text(nonce) == req.nonce@);
}

/// A signature made at `t` is accepted when checked 59 minutes later and
/// refused when checked 61 minutes later.
pub proof fn lemma_signature_freshness(key: Seq<u8>, data: Seq<char>, sig: Seq<char>, t: Timestamp)
    requires
        signature_text(key, data, t) == Some(sig),
        t.secs + 61 * 60 <= i64::MAX,
    ensures
        signature_accepted(key, data, sig, t, t.plus_secs(59 * 60 as int)),
        !signature_accepted(key, data, sig, t, t.plus_secs(61 * 60 as int)),
{
    let s = t.secs as int;
    assert((s + 59 * 60) * 1_000_000_000 - s * 1_000_000_000 == 59 * 60 * 1_000_000_000)
        by (nonlinear_arith);
    assert((s + 61 * 60) * 1_000_000_000 - s * 1_000_000_000 == 61 * 60 * 1_000_000_000)
        by (nonlinear_arith);
}

} // verus!
