//! Confidential point-to-point messages over a public relay network: NIP-04
//! envelopes that carry framed payloads.

use crate::recovery::bytes::same_bytes;
use crate::recovery::error::RecoveryError;
use crate::recovery::secret::Secret;
use crate::recovery::wire::{
    frame, frame_spec, law_frame_notices_a_changed_character, law_frame_round_trip, unframe,
    unframe_spec,
};
use vstd::prelude::*;

verus! {

/// What `nostr::nips::nip04::decrypt_to_bytes` yields for a secret key, the
/// public key of the other party and the content of an envelope: the
/// plaintext, or nothing where it fails.
pub uninterp spec fn nip04_opened(
    secret_key: Seq<u8>,
    public_key: Seq<u8>,
    content: Seq<char>,
) -> Option<Seq<u8>>;

/// The public key that `nostr::Keys::new` derives from the bytes of a secret
/// key; nothing where the bytes are no secret key.
pub uninterp spec fn derived_public_key(secret_key: Seq<u8>) -> Option<Seq<u8>>;

/// The bytes of the public key that `nostr::PublicKey::parse` reads from a
/// text; nothing where it reads none.
pub uninterp spec fn parsed_public_key(text: Seq<char>) -> Option<Seq<u8>>;

/// The bytes of the secret key that `nostr::SecretKey::parse` reads from a
/// text; nothing where it reads none.
pub uninterp spec fn parsed_secret_key(text: Seq<char>) -> Option<Seq<u8>>;

/// What `nostr::nips::nip04::decrypt` yields for a secret key, the public
/// key of the other party and the content of an envelope: the plaintext as
/// text, or nothing where it fails.
pub uninterp spec fn nip04_text(
    secret_key: Seq<u8>,
    public_key: Seq<u8>,
    content: Seq<char>,
) -> Option<Seq<char>>;

/// Reads a secret key from its hexadecimal or bech32 form.
///
/// Trusted: calls `nostr::SecretKey::parse`. The result depends on the text
/// alone; the contract gives it a name.
#[verifier::external_body]
fn read_secret_key(text: &str) -> (r: Option<Vec<u8>>)
    ensures
        match r {
            Some(bytes) => parsed_secret_key(text@) == Some(bytes@),
            None => parsed_secret_key(text@) is None,
        },
{
    match nostr_sdk::nostr::SecretKey::parse(text) {
        Ok(key) => Some(key.to_secret_bytes().to_vec()),
        Err(_) => None,
    }
}

/// Opens a NIP-04 envelope to text.
///
/// Trusted: builds the keys with `nostr::SecretKey::from_slice` and
/// `nostr::PublicKey::from_slice` and calls `nostr::nips::nip04::decrypt`.
/// The result depends on the three arguments alone; the contract gives it a
/// name and claims nothing more.
#[verifier::external_body]
fn nip04_decrypt_text(secret_key: &Vec<u8>, public_key: &Vec<u8>, content: &str) -> (r: Option<
    String,
>)
    ensures
        match r {
            Some(text) => nip04_text(secret_key@, public_key@, content@) == Some(text@),
            None => nip04_text(secret_key@, public_key@, content@) is None,
        },
{
    let sk = nostr_sdk::nostr::SecretKey::from_slice(secret_key).ok()?;
    let pk = nostr_sdk::nostr::PublicKey::from_slice(public_key).ok()?;
    nostr_sdk::nostr::nips::nip04::decrypt(&sk, &pk, content).ok()
}

/// Opens a NIP-04 envelope.
///
/// Trusted: builds the keys with `nostr::SecretKey::from_slice` and
/// `nostr::PublicKey::from_slice` and calls
/// `nostr::nips::nip04::decrypt_to_bytes`. The result depends on the three
/// arguments alone; the contract gives it a name and claims nothing more.
#[verifier::external_body]
fn nip04_decrypt(secret_key: &Vec<u8>, public_key: &Vec<u8>, content: &str) -> (r: Option<Vec<u8>>)
    ensures
        match r {
            Some(text) => nip04_opened(secret_key@, public_key@, content@) == Some(text@),
            None => nip04_opened(secret_key@, public_key@, content@) is None,
        },
{
    let sk = nostr_sdk::nostr::SecretKey::from_slice(secret_key).ok()?;
    let pk = nostr_sdk::nostr::PublicKey::from_slice(public_key).ok()?;
    nostr_sdk::nostr::nips::nip04::decrypt_to_bytes(&sk, &pk, content).ok()
}

/// Seals a plaintext in a NIP-04 envelope.
///
/// Trusted: builds the keys as above and calls
/// `nostr::nips::nip04::encrypt`, which draws a fresh initialisation vector,
/// so the content differs from call to call. The contract claims what holds
/// of every content that comes back: `decrypt_to_bytes`, given the same two
/// keys, opens it to the plaintext. In the source the two functions mirror
/// each other: the same shared key from the same two keys, AES-256-CBC with
/// PKCS#7 padding, and base64 with the vector after `?iv=`.
#[verifier::external_body]
fn nip04_encrypt(secret_key: &Vec<u8>, public_key: &Vec<u8>, plaintext: &Vec<u8>) -> (r: Option<
    String,
>)
    ensures
        r matches Some(content) ==> nip04_opened(secret_key@, public_key@, content@) == Some(
            plaintext@,
        ),
{
    let sk = nostr_sdk::nostr::SecretKey::from_slice(secret_key).ok()?;
    let pk = nostr_sdk::nostr::PublicKey::from_slice(public_key).ok()?;
    nostr_sdk::nostr::nips::nip04::encrypt(&sk, &pk, plaintext).ok()
}

/// Derives the public key of a secret key.
///
/// Trusted: calls `nostr::SecretKey::from_slice` and `nostr::Keys::new`. The
/// result depends on the bytes alone; the contract gives it a name.
#[verifier::external_body]
fn derive_public_key(secret_key: &Vec<u8>) -> (r: Option<Vec<u8>>)
    ensures
        match r {
            Some(public) => derived_public_key(secret_key@) == Some(public@),
            None => derived_public_key(secret_key@) is None,
        },
{
    let sk = nostr_sdk::nostr::SecretKey::from_slice(secret_key).ok()?;
    Some(nostr_sdk::nostr::Keys::new(sk).public_key().to_bytes().to_vec())
}

/// Draws a fresh secret key.
///
/// Trusted: calls `nostr::Keys::generate`, which reads the randomness of
/// the operating system, and takes the bytes of the secret key. Which key
/// comes back is open; the contract claims that it is one: `generate`
/// builds its keys with `Keys::new` from a secret key that it has drawn
/// until it was valid, so the bytes are read back as a secret key and a
/// public key is derived from them.
#[verifier::external_body]
fn generate_secret_key() -> (bytes: Vec<u8>)
    ensures
        derived_public_key(bytes@) is Some,
{
    nostr_sdk::nostr::Keys::generate().secret_key().to_secret_bytes().to_vec()
}

/// Reads a public key from its hexadecimal, bech32 or URI form.
///
/// Trusted: calls `nostr::PublicKey::parse`. The result depends on the text
/// alone; the contract gives it a name.
#[verifier::external_body]
fn read_public_key(text: &str) -> (r: Option<Vec<u8>>)
    ensures
        match r {
            Some(bytes) => parsed_public_key(text@) == Some(bytes@),
            None => parsed_public_key(text@) is None,
        },
{
    match nostr_sdk::nostr::PublicKey::parse(text) {
        Ok(key) => Some(key.to_bytes().to_vec()),
        Err(_) => None,
    }
}

/// The public key that identifies a party.
#[derive(Debug)]
pub struct PubKey {
    pub bytes: Vec<u8>,
}

impl View for PubKey {
    type V = Seq<u8>;

    open spec fn view(&self) -> Seq<u8> {
        self.bytes@
    }
}

impl PubKey {
    /// A public key from its bytes.
    pub fn from_bytes(bytes: Vec<u8>) -> (key: PubKey)
        ensures
            key@ == bytes@,
    {
        PubKey { bytes }
    }

    /// Reads a public key from text.
    pub fn parse(text: &str) -> (key: Option<PubKey>)
        ensures
            match key {
                Some(k) => parsed_public_key(text@) == Some(k@),
                None => parsed_public_key(text@) is None,
            },
    {
        match read_public_key(text) {
            Some(bytes) => Some(PubKey { bytes }),
            None => None,
        }
    }

    /// Whether two keys are the same.
    pub fn same(&self, other: &PubKey) -> (same: bool)
        ensures
            same == (self@ == other@),
    {
        same_bytes(&self.bytes, &other.bytes)
    }

    /// A copy of the key.
    pub fn duplicate(&self) -> (key: PubKey)
        ensures
            key@ == self@,
    {
        PubKey { bytes: crate::recovery::bytes::copy_bytes(&self.bytes) }
    }
}

/// A party that can seal and open envelopes: a secret key with its public
/// key.
pub struct Identity {
    secret: Secret,
    public: PubKey,
}

/// What an identity holds.
pub struct IdentityView {
    pub secret: Seq<u8>,
    pub public: Seq<u8>,
}

impl View for Identity {
    type V = IdentityView;

    closed spec fn view(&self) -> IdentityView {
        IdentityView { secret: self.secret@, public: self.public@ }
    }
}

impl Identity {
    /// The public key is the one that belongs to the secret key.
    pub open spec fn wf(&self) -> bool {
        derived_public_key(self@.secret) == Some(self@.public)
    }

    /// The identity of a secret key; `None` where the bytes are no secret
    /// key.
    pub fn from_secret(secret: Secret) -> (identity: Option<Identity>)
        ensures
            match identity {
                Some(id) => id.wf() && id@.secret == secret@,
                None => derived_public_key(secret@) is None,
            },
    {
        match derive_public_key(secret.expose()) {
            Some(bytes) => Some(Identity { secret, public: PubKey { bytes } }),
            None => None,
        }
    }

    /// The identity of a secret key given as text; `None` where the text
    /// is no secret key.
    pub fn parse(text: &str) -> (identity: Option<Identity>)
        ensures
            match identity {
                Some(id) => id.wf() && parsed_secret_key(text@) == Some(id@.secret),
                None => match parsed_secret_key(text@) {
                    Some(secret) => derived_public_key(secret) is None,
                    None => true,
                },
            },
    {
        match read_secret_key(text) {
            Some(bytes) => Identity::from_secret(Secret::new(bytes)),
            None => None,
        }
    }

    /// Opens a direct message from `sender` to text.
    pub fn open_text(&self, sender: &PubKey, content: &str) -> (text: Option<String>)
        ensures
            match text {
                Some(t) => nip04_text(self@.secret, sender@, content@) == Some(t@),
                None => nip04_text(self@.secret, sender@, content@) is None,
            },
    {
        nip04_decrypt_text(self.secret.expose(), &sender.bytes, content)
    }

    /// A fresh identity: a key pair drawn at random.
    pub fn generate() -> (identity: Identity)
        ensures
            identity.wf(),
    {
        Identity::from_secret(Secret::new(generate_secret_key())).unwrap()
    }

    /// The public key of the identity.
    pub fn public_key(&self) -> (key: &PubKey)
        ensures
            key@ == self@.public,
    {
        &self.public
    }
}

/// An authenticated-encrypted message addressed to a public key.
#[derive(Debug)]
pub struct Envelope {
    /// The NIP-04 content: ciphertext and initialisation vector.
    pub content: String,
}

impl Envelope {
    /// An envelope with the given content.
    pub fn new(content: String) -> (envelope: Envelope)
        ensures
            envelope@ == content@,
    {
        Envelope { content }
    }

    /// A copy of the envelope.
    pub fn duplicate(&self) -> (envelope: Envelope)
        ensures
            envelope@ == self@,
    {
        Envelope { content: self.content.clone() }
    }
}

impl View for Envelope {
    type V = Seq<char>;

    open spec fn view(&self) -> Seq<char> {
        self.content@
    }
}

/// What opening an envelope comes to, given what the cipher made of it: the
/// payload of the frame inside, or `DecryptionFailed` where the cipher
/// failed or the plaintext is no intact frame.
pub open spec fn opened_payload(opened: Option<Seq<u8>>) -> Result<Seq<u8>, RecoveryError> {
    match opened {
        None => Err(RecoveryError::DecryptionFailed),
        Some(text) => match unframe_spec(text) {
            None => Err(RecoveryError::DecryptionFailed),
            Some(payload) => Ok(payload),
        },
    }
}

/// A damaged plaintext is refused: where the cipher opens an envelope to a
/// text that differs in one character from the frame of a payload, the
/// opening fails with `DecryptionFailed`, so that nothing damaged is taken
/// for a payload.
pub proof fn law_damaged_plaintext_is_refused(payload: Seq<u8>, damaged: Seq<u8>, place: int)
    requires
        damaged.len() == frame_spec(payload).len(),
        0 <= place < damaged.len(),
        damaged[place] != frame_spec(payload)[place],
        forall|i: int|
            0 <= i < damaged.len() && i != place ==> damaged[i] == frame_spec(payload)[i],
    ensures
        opened_payload(Some(damaged)) == Err::<Seq<u8>, RecoveryError>(
            RecoveryError::DecryptionFailed,
        ),
{
    law_frame_notices_a_changed_character(payload, damaged, place);
}

/// What `receiver` finds in an envelope that claims to come from `sender`.
pub open spec fn decrypt_spec(envelope: Seq<char>, receiver: IdentityView, sender: Seq<u8>) -> Result<
    Seq<u8>,
    RecoveryError,
> {
    opened_payload(nip04_opened(receiver.secret, sender, envelope))
}

/// Sends and receives confidential payloads.
pub struct ConfidentialChannel;

impl ConfidentialChannel {
    /// The envelope that the cipher gave, or `TransportUnavailable` where
    /// it gave none.
    pub fn sealed(content: Option<String>) -> (r: Result<Envelope, RecoveryError>)
        ensures
            match content {
                Some(c) => r matches Ok(envelope) && envelope@ == c@,
                None => r == Err::<Envelope, RecoveryError>(RecoveryError::TransportUnavailable),
            },
    {
        match content {
            Some(content) => Ok(Envelope { content }),
            None => Err(RecoveryError::TransportUnavailable),
        }
    }

    /// Seals `payload` for `recipient` in the name of `sender`: the frame of
    /// the payload goes into a NIP-04 envelope under the key that the two
    /// share.
    ///
    /// The envelope differs from call to call. Whatever it is, it opens
    /// under the pair of keys it was sealed with to the payload. Fails with
    /// `TransportUnavailable` where the cipher cannot seal for these keys.
    pub fn encrypt_for(payload: &Vec<u8>, sender: &Identity, recipient: &PubKey) -> (r: Result<
        Envelope,
        RecoveryError,
    >)
        requires
            2 * (payload@.len() + 4) <= usize::MAX,
        ensures
            match r {
                Ok(envelope) => decrypt_spec(envelope@, sender@, recipient@) == Ok::<
                    Seq<u8>,
                    RecoveryError,
                >(payload@),
                Err(e) => e == RecoveryError::TransportUnavailable,
            },
    {
        let text = frame(payload);
        proof {
            law_frame_round_trip(payload@);
        }
        ConfidentialChannel::sealed(nip04_encrypt(sender.secret.expose(), &recipient.bytes, &text))
    }

    /// The payload of a plaintext that the cipher gave, or
    /// `DecryptionFailed`.
    pub fn open(opened: Option<Vec<u8>>) -> (r: Result<Vec<u8>, RecoveryError>)
        ensures
            match r {
                Ok(payload) => opened matches Some(text) && opened_payload(Some(text@)) == Ok::<
                    Seq<u8>,
                    RecoveryError,
                >(payload@),
                Err(e) => e == RecoveryError::DecryptionFailed && (match opened {
                    Some(text) => opened_payload(Some(text@)) is Err,
                    None => true,
                }),
            },
    {
        match opened {
            None => Err(RecoveryError::DecryptionFailed),
            Some(text) => match unframe(&text) {
                None => Err(RecoveryError::DecryptionFailed),
                Some(payload) => Ok(payload),
            },
        }
    }

    /// Opens `envelope` as `receiver`, taking it to come from
    /// `claimed_sender`.
    ///
    /// Fails with `DecryptionFailed` where the cipher fails (wrong key,
    /// malformed or damaged envelope) or the plaintext is no intact frame.
    pub fn decrypt_from(envelope: &Envelope, receiver: &Identity, claimed_sender: &PubKey) -> (r:
        Result<Vec<u8>, RecoveryError>)
        ensures
            match r {
                Ok(payload) => decrypt_spec(envelope@, receiver@, claimed_sender@) == Ok::<
                    Seq<u8>,
                    RecoveryError,
                >(payload@),
                Err(e) => decrypt_spec(envelope@, receiver@, claimed_sender@) == Err::<
                    Seq<u8>,
                    RecoveryError,
                >(e),
            },
    {
        let opened = nip04_decrypt(
            receiver.secret.expose(),
            &claimed_sender.bytes,
            envelope.content.as_str(),
        );
        ConfidentialChannel::open(opened)
    }
}

} // verus!
