use vstd::prelude::*;
use aes_gcm::aead::{Aead, NewAead};
use aes_gcm::{Aes256Gcm, Key, Nonce};
use crate::gdp::GdpError;
use crate::packet::{Udp, lengths_reconciled, UDP_HEADER_LEN, IPV4_HEADER_LEN};

verus! {

/// Length of the GCM authentication tag appended to every ciphertext.
pub const TAG_LEN: usize = 16;

/// The largest plaintext this wrapper hands to the cipher: any UDP payload
/// fits, and it stays far below the cipher's own limit of 2^36 - 16 bytes.
pub const MAX_PLAINTEXT: usize = 65536;

/// Key and 96-bit nonce of the AEAD wrapper.
#[derive(Debug, Clone, Copy)]
pub struct AeadConfig {
    pub key: [u8; 32],
    pub nonce: [u8; 12],
}

/// The ciphertext, tag appended, that AES-256-GCM gives for `plain` under
/// `key` and `nonce`, with no associated data.
pub uninterp spec fn gcm_seal(key: Seq<u8>, nonce: Seq<u8>, plain: Seq<u8>) -> Seq<u8>;

/// Relies on `aes_gcm::Aes256Gcm::encrypt` (aead 0.4's `Aead::encrypt`):
/// on a plaintext well within the cipher's length limit it succeeds and
/// returns the ciphertext with the 16-byte tag appended.
#[verifier::external_body]
fn aes_gcm_encrypt(key: &[u8; 32], nonce: &[u8; 12], plain: &Vec<u8>) -> (r: Option<Vec<u8>>)
    requires
        plain@.len() <= MAX_PLAINTEXT,
    ensures
        r is Some,
        r matches Some(c) ==> c@ == gcm_seal(key@, nonce@, plain@),
        r matches Some(c) ==> c@.len() == plain@.len() + TAG_LEN,
{
    let cipher = Aes256Gcm::new(Key::from_slice(key));
    cipher.encrypt(Nonce::from_slice(nonce), plain.as_slice()).ok()
}

/// Relies on `aes_gcm::Aes256Gcm::decrypt` (aead 0.4's `Aead::decrypt`):
/// on a ciphertext well within the cipher's length limit it succeeds exactly
/// on what `encrypt` gives under the same key and nonce, and then returns
/// that plaintext, the 16-byte tag cut off.
#[verifier::external_body]
fn aes_gcm_decrypt(key: &[u8; 32], nonce: &[u8; 12], cipher_text: &Vec<u8>) -> (r: Option<Vec<u8>>)
    requires
        cipher_text@.len() <= MAX_PLAINTEXT + TAG_LEN,
    ensures
        r is None ==> forall|p: Seq<u8>|
            p.len() <= MAX_PLAINTEXT ==> #[trigger] gcm_seal(key@, nonce@, p) != cipher_text@,
        r matches Some(q) ==> gcm_seal(key@, nonce@, q@) == cipher_text@,
        r matches Some(q) ==> q@.len() + TAG_LEN == cipher_text@.len(),
        r matches Some(q) ==> forall|p: Seq<u8>|
            p.len() <= MAX_PLAINTEXT && #[trigger] gcm_seal(key@, nonce@, p) == cipher_text@ ==> p
                == q@,
{
    let cipher = Aes256Gcm::new(Key::from_slice(key));
    cipher.decrypt(Nonce::from_slice(nonce), cipher_text.as_slice()).ok()
}

impl AeadConfig {
    /// The process-wide key and fixed nonce.
    pub fn fixed() -> (r: AeadConfig)
        ensures
            r@ == fixed_config(),
    {
        let key: [u8; 32] = [
            97u8, 110, 32, 101, 120, 97, 109, 112, 108, 101, 32, 118, 101, 114,
            121, 32, 118, 101, 114, 121, 32, 115, 101, 99, 114, 101, 116, 32,
            107, 101, 121, 46,
        ];
        let nonce: [u8; 12] = [
            117u8, 110, 105, 113, 117, 101, 32, 110, 111, 110, 99, 101,
        ];
        let r = AeadConfig { key, nonce };
        assert(r@ =~= fixed_config());
        r
    }

    pub open spec fn view(&self) -> (Seq<u8>, Seq<u8>) {
        (self.key@, self.nonce@)
    }
}

pub open spec fn fixed_config() -> (Seq<u8>, Seq<u8>) {
    (
        seq![
            97u8, 110, 32, 101, 120, 97, 109, 112, 108, 101, 32, 118, 101, 114, 121, 32, 118,
            101, 114, 121, 32, 115, 101, 99, 114, 101, 116, 32, 107, 101, 121, 46,
        ],
        seq![117u8, 110, 105, 113, 117, 101, 32, 110, 111, 110, 99, 101],
    )
}

/// What `decrypt_gdp` returns on `u`: the plaintext in place of the
/// payload where the payload authenticates, `AuthFailed` where it does not
/// or where it is longer than any sealed plaintext can be.
pub open spec fn decrypt_outcome(cfg: AeadConfig, u: Udp, r: Result<Udp, GdpError>) -> bool {
    &&& u.payload@.len() <= MAX_PLAINTEXT + TAG_LEN ==> forall|p: Seq<u8>|
        p.len() <= MAX_PLAINTEXT && #[trigger] gcm_seal(cfg.key@, cfg.nonce@, p) == u.payload@ ==> (
        r matches Ok(v) && v.payload@ == p)
    &&& u.payload@.len() > MAX_PLAINTEXT + TAG_LEN ==> r == Err::<Udp, GdpError>(GdpError::AuthFailed)
    &&& r matches Ok(v) ==> gcm_seal(cfg.key@, cfg.nonce@, v.payload@) == u.payload@
        && v.payload@.len() + TAG_LEN == u.payload@.len() && v.eth == u.eth && v.ipv4 == u.ipv4
        && v.udp == u.udp
    &&& r matches Err(e) ==> e == GdpError::AuthFailed
}

/// Decrypts the UDP payload in place; it shrinks by the tag.
pub fn decrypt_gdp(cfg: &AeadConfig, udp_packet: Udp) -> (r: Result<Udp, GdpError>)
    ensures
        decrypt_outcome(*cfg, udp_packet, r),
{
    if udp_packet.payload.len() > MAX_PLAINTEXT + TAG_LEN {
        return Err(GdpError::AuthFailed);
    }
    match aes_gcm_decrypt(&cfg.key, &cfg.nonce, &udp_packet.payload) {
        Some(plain) => {
            let Udp { eth, ipv4, udp, payload: _ } = udp_packet;
            Ok(Udp { eth, ipv4, udp, payload: plain })
        },
        None => Err(GdpError::AuthFailed),
    }
}

/// Encrypts the UDP payload in place; it grows by the tag. Fails with
/// `BufferShort` exactly where the payload is longer than `MAX_PLAINTEXT`.
pub fn encrypt_gdp(cfg: &AeadConfig, udp_packet: Udp) -> (r: Result<Udp, GdpError>)
    ensures
        r is Ok <==> udp_packet.payload@.len() <= MAX_PLAINTEXT,
        r matches Ok(v) ==> v.payload@ == gcm_seal(cfg.key@, cfg.nonce@, udp_packet.payload@)
            && v.payload@.len() == udp_packet.payload@.len() + TAG_LEN && v.eth == udp_packet.eth
            && v.ipv4 == udp_packet.ipv4 && v.udp == udp_packet.udp,
        r matches Err(e) ==> e == GdpError::BufferShort,
{
    if udp_packet.payload.len() > MAX_PLAINTEXT {
        return Err(GdpError::BufferShort);
    }
    match aes_gcm_encrypt(&cfg.key, &cfg.nonce, &udp_packet.payload) {
        Some(sealed) => {
            let Udp { eth, ipv4, udp, payload: _ } = udp_packet;
            Ok(Udp { eth, ipv4, udp, payload: sealed })
        },
        None => Err(GdpError::BufferShort),
    }
}

/// Decrypting what `encrypt_gdp` gave gives back the plaintext, so the
/// payload has its former length again, and lengths reconciled over it are
/// those of the datagram before encryption.
pub proof fn lemma_decrypt_inverts_encrypt(
    cfg: AeadConfig,
    plain: Seq<u8>,
    sealed: Udp,
    opened: Result<Udp, GdpError>,
)
    requires
        plain.len() <= MAX_PLAINTEXT,
        sealed.payload@ == gcm_seal(cfg.key@, cfg.nonce@, plain),
        sealed.payload@.len() == plain.len() + TAG_LEN,
        decrypt_outcome(cfg, sealed, opened),
    ensures
        opened is Ok,
        opened matches Ok(v) ==> v.payload@ == plain && v.payload@.len() == plain.len(),
        opened matches Ok(v) ==> forall|w: Udp|
            #[trigger] lengths_reconciled(w) && w.payload@ == v.payload@ ==> w.udp.length as int
                == UDP_HEADER_LEN + plain.len() && w.ipv4.total_length as int == IPV4_HEADER_LEN
                + UDP_HEADER_LEN + plain.len(),
{
    assert(gcm_seal(cfg.key@, cfg.nonce@, plain) == sealed.payload@);
}

} // verus!
