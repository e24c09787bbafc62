//! Authenticated-encrypted BTHome v2 envelope.
//!
//! A [`CryptoEngine`] owns a 128-bit key, a 6-byte device MAC and a
//! 32-bit message counter. Each successful encode seals the plaintext
//! payload with AES-CCM (4-byte tag, 13-byte nonce), writes marker,
//! ciphertext, cleartext counter and tag, and then — only then —
//! advances the counter by one, wrapping to zero. The counter is the
//! nonce's only varying part under a fixed key and MAC, so advancing it
//! on success alone keeps every nonce unique while a failed encode stays
//! retryable.

use vstd::prelude::*;

use aes::cipher::generic_array::GenericArray;
use aes::Aes128;
use ccm::consts::U13;
use ccm::consts::U4;
use ccm::AeadInPlace;
use ccm::Ccm;
use ccm::KeyInit;

use crate::add_payload;
use crate::le32;
use crate::lemma_payload_result_len;
use crate::payload_result;
use crate::writer::BoundedWriter;
use crate::BTHomeData;
use crate::BTHomeError;

verus! {

/// The device-info marker opening every encrypted envelope.
pub const ENCRYPTED_MARKER: u8 = 0x41;

/// What AES-128-CCM with a 4-byte tag, a 13-byte nonce and no associated
/// data produces from a key, a nonce and a message: the ciphertext (as
/// long as the message) followed by the 4-byte authentication tag. The
/// construction is a pure function of these three inputs, so the result
/// carries a name rather than a definition.
pub uninterp spec fn aes_ccm_sealed(key: Seq<u8>, nonce: Seq<u8>, message: Seq<u8>) -> Seq<u8>;

/// Relies on `ccm::Ccm::<aes::Aes128, U4, U13>::encrypt_in_place_detached`
/// (RustCrypto AES-128-CCM, 4-byte tag, 13-byte nonce), keyed through
/// `aes::Aes128` from the 16 key bytes: with no associated data it
/// accepts every message of at most 65535 bytes, encrypts it in place —
/// same length — deterministically in key, nonce and message, and
/// returns the detached 4-byte tag.
#[verifier::external_body]
fn aes_ccm_encrypt_in_place(
    key: &[u8; 16],
    nonce: &Vec<u8>,
    buffer: &mut Vec<u8>,
    start: usize,
    end: usize,
) -> (r: Option<[u8; 4]>)
    requires
        nonce@.len() == 13,
        start <= end <= old(buffer)@.len(),
        end - start <= 65535,
    ensures
        r is Some,
        final(buffer)@.len() == old(buffer)@.len(),
        r is Some ==> aes_ccm_sealed(key@, nonce@, old(buffer)@.subrange(start as int, end as int)).len()
            == (end - start) + 4,
        final(buffer)@ == old(buffer)@.subrange(0, start as int) + aes_ccm_sealed(
            key@,
            nonce@,
            old(buffer)@.subrange(start as int, end as int),
        ).subrange(0, end - start) + old(buffer)@.skip(end as int),
        r matches Some(tag) ==> tag@ == aes_ccm_sealed(
            key@,
            nonce@,
            old(buffer)@.subrange(start as int, end as int),
        ).skip(end - start),
{
    let cipher = Ccm::<Aes128, U4, U13>::new(GenericArray::from_slice(key));
    let nonce_arr = GenericArray::from_slice(nonce.as_slice());
    match cipher.encrypt_in_place_detached(nonce_arr, &[], &mut buffer[start..end]) {
        Ok(tag) => Some(tag.into()),
        Err(_) => None,
    }
}

/// The 13-byte nonce of one encode: the device MAC, the two bytes of the
/// service identifier `0xFCD2` little-endian (`0xD2` then `0xFC`, the
/// order fixed here as part of the wire contract), the encrypted-envelope
/// marker, then the counter little-endian.
pub open spec fn nonce_bytes(mac: Seq<u8>, counter: u32) -> Seq<u8> {
    mac + seq![0xD2u8, 0xFCu8, ENCRYPTED_MARKER] + le32(counter as int)
}

/// The counter after one successful encode: one more, wrapping to zero
/// at the 32-bit limit instead of failing.
pub open spec fn wrap_inc(counter: u32) -> u32 {
    if counter == u32::MAX {
        0
    } else {
        (counter + 1) as u32
    }
}

/// The state an encrypted encode needs: key, device identity and the
/// monotonically advancing message counter.
pub struct CryptoEngine {
    key: [u8; 16],
    mac_address: [u8; 6],
    counter: u32,
}

impl CryptoEngine {
    /// The 16 key bytes the engine encrypts with.
    pub closed spec fn spec_key(&self) -> Seq<u8> {
        self.key@
    }

    /// The 6-byte device MAC that opens every nonce.
    pub closed spec fn spec_mac(&self) -> Seq<u8> {
        self.mac_address@
    }

    /// The counter the next encode will use.
    pub closed spec fn spec_counter(&self) -> u32 {
        self.counter
    }

    /// An engine for one device identity, with the caller's counter seed.
    pub fn new(encryption_key: [u8; 16], mac_address: [u8; 6], counter_seed: u32) -> (engine:
        CryptoEngine)
        ensures
            engine.spec_key() == encryption_key@,
            engine.spec_mac() == mac_address@,
            engine.spec_counter() == counter_seed,
    {
        CryptoEngine { key: encryption_key, mac_address, counter: counter_seed }
    }
}

impl BTHomeData {
    /// Encodes the record encrypted into the front of the caller's
    /// buffer: the marker `0x41`, the AES-CCM ciphertext of the payload,
    /// the counter used (cleartext, little-endian), then the 4-byte tag.
    /// Success is returned exactly when every present field is in range
    /// and payload plus 9 bytes of overhead fit; only then does the
    /// counter advance, by one with wraparound. On any error the engine
    /// is unchanged and the buffer contents are unspecified.
    pub fn to_encrypted_slice(
        self,
        crypto_engine: &mut CryptoEngine,
        buffer: &mut Vec<u8>,
    ) -> (r: Result<usize, BTHomeError>)
        ensures
            final(buffer)@.len() == old(buffer)@.len(),
            final(crypto_engine).spec_key() == old(crypto_engine).spec_key(),
            final(crypto_engine).spec_mac() == old(crypto_engine).spec_mac(),
            (match r {
                Ok(n) => ({
                    let cap = old(buffer)@.len();
                    &&& cap >= 1
                    &&& payload_result(self, cap - 1) matches Ok(p) && ({
                        let nonce = nonce_bytes(
                            old(crypto_engine).spec_mac(),
                            old(crypto_engine).spec_counter(),
                        );
                        let sealed = aes_ccm_sealed(old(crypto_engine).spec_key(), nonce, p);
                        &&& sealed.len() == p.len() + 4
                        &&& n == p.len() + 9
                        &&& n <= cap
                        &&& final(buffer)@ == seq![ENCRYPTED_MARKER] + sealed.subrange(
                            0,
                            p.len() as int,
                        ) + le32(old(crypto_engine).spec_counter() as int) + sealed.skip(
                            p.len() as int,
                        ) + old(buffer)@.skip(n as int)
                    })
                    &&& final(crypto_engine).spec_counter() == wrap_inc(
                        old(crypto_engine).spec_counter(),
                    )
                }),
                Err(e) => ({
                    &&& final(crypto_engine).spec_counter() == old(crypto_engine).spec_counter()
                    &&& (if old(buffer)@.len() == 0 {
                        e == BTHomeError::BufferOverflow
                    } else {
                        match payload_result(self, old(buffer)@.len() - 1) {
                            Err(pe) => e == pe,
                            Ok(p) => e == BTHomeError::BufferOverflow && p.len() + 9 > old(
                                buffer,
                            )@.len(),
                        }
                    })
                }),
            }),
    {
        let cap = buffer.len();
        if cap == 0 {
            return Err(BTHomeError::BufferOverflow);
        }
        let mut w = BoundedWriter::new(cap);
        w.push(ENCRYPTED_MARKER);
        assert(w@ =~= seq![ENCRYPTED_MARKER]);
        match add_payload(self, &mut w) {
            Err(e) => Err(e),
            Ok(_payload_size) => {
                proof {
                    lemma_payload_result_len(self, cap - 1);
                }
                let size = w.len();
                let ghost p = payload_result(self, cap as int - 1)->Ok_0;

                let c = crypto_engine.counter;
                let mut nonce: Vec<u8> = Vec::new();
                nonce.push(crypto_engine.mac_address[0]);
                nonce.push(crypto_engine.mac_address[1]);
                nonce.push(crypto_engine.mac_address[2]);
                nonce.push(crypto_engine.mac_address[3]);
                nonce.push(crypto_engine.mac_address[4]);
                nonce.push(crypto_engine.mac_address[5]);
                nonce.push(0xD2);
                nonce.push(0xFC);
                nonce.push(ENCRYPTED_MARKER);
                nonce.push((c % 256) as u8);
                nonce.push(((c / 256) % 256) as u8);
                nonce.push(((c / 0x10000) % 256) as u8);
                nonce.push(((c / 0x1000000) % 256) as u8);
                assert(nonce@ =~= nonce_bytes(crypto_engine.mac_address@, c));

                let mut out = w.into_vec();
                assert(out@.subrange(1, size as int) =~= p);
                match aes_ccm_encrypt_in_place(&crypto_engine.key, &nonce, &mut out, 1, size) {
                    None => Err(BTHomeError::Encrypt),
                    Some(tag) => {
                        let ghost sealed = aes_ccm_sealed(crypto_engine.key@, nonce@, p);
                        assert(out@ =~= seq![ENCRYPTED_MARKER] + sealed.subrange(
                            0,
                            size as int - 1,
                        ));
                        if cap - size < 8 {
                            return Err(BTHomeError::BufferOverflow);
                        }
                        out.push((c % 256) as u8);
                        out.push(((c / 256) % 256) as u8);
                        out.push(((c / 0x10000) % 256) as u8);
                        out.push(((c / 0x1000000) % 256) as u8);
                        out.push(tag[0]);
                        out.push(tag[1]);
                        out.push(tag[2]);
                        out.push(tag[3]);
                        let total = size + 8;
                        assert(out@ =~= seq![ENCRYPTED_MARKER] + sealed.subrange(
                            0,
                            size as int - 1,
                        ) + le32(c as int) + sealed.skip(size as int - 1));
                        let ghost core = out@;
                        // carry the bytes past the envelope over unchanged
                        let mut i = total;
                        while i < cap
                            invariant
                                total <= i <= cap,
                                core.len() == total,
                                out@ == core + buffer@.subrange(total as int, i as int),
                                buffer@.len() == cap,
                            decreases cap - i,
                        {
                            let b = buffer[i];
                            out.push(b);
                            proof {
                                assert(out@ =~= core + buffer@.subrange(total as int, i + 1));
                            }
                            i = i + 1;
                        }
                        proof {
                            assert(buffer@.skip(total as int) =~= buffer@.subrange(
                                total as int,
                                cap as int,
                            ));
                        }
                        *buffer = out;
                        crypto_engine.counter = if crypto_engine.counter == u32::MAX {
                            0
                        } else {
                            crypto_engine.counter + 1
                        };
                        Ok(total)
                    },
                }
            },
        }
    }

    /// Encodes the record encrypted through a 256-byte scratch buffer
    /// and returns exactly the envelope bytes; success, errors and the
    /// counter behave as in [`Self::to_encrypted_slice`], and the
    /// payload always fits.
    pub fn to_encrypted_vec(self, crypto_engine: &mut CryptoEngine) -> (r: Result<
        Vec<u8>,
        BTHomeError,
    >)
        ensures
            final(crypto_engine).spec_key() == old(crypto_engine).spec_key(),
            final(crypto_engine).spec_mac() == old(crypto_engine).spec_mac(),
            (match r {
                Ok(v) => ({
                    &&& payload_result(self, 255) matches Ok(p) && ({
                        let nonce = nonce_bytes(
                            old(crypto_engine).spec_mac(),
                            old(crypto_engine).spec_counter(),
                        );
                        let sealed = aes_ccm_sealed(old(crypto_engine).spec_key(), nonce, p);
                        &&& sealed.len() == p.len() + 4
                        &&& v@ == seq![ENCRYPTED_MARKER] + sealed.subrange(0, p.len() as int) + le32(
                            old(crypto_engine).spec_counter() as int,
                        ) + sealed.skip(p.len() as int)
                    })
                    &&& final(crypto_engine).spec_counter() == wrap_inc(
                        old(crypto_engine).spec_counter(),
                    )
                }),
                Err(e) => ({
                    &&& final(crypto_engine).spec_counter() == old(crypto_engine).spec_counter()
                    &&& payload_result(self, 255) == Err::<Seq<u8>, BTHomeError>(e)
                }),
            }),
    {
        let mut buffer: Vec<u8> = vec![0u8; 256];
        proof {
            lemma_payload_result_len(self, 255);
        }
        match self.to_encrypted_slice(crypto_engine, &mut buffer) {
            Err(e) => Err(e),
            Ok(size) => {
                buffer.truncate(size);
                proof {
                    let p = payload_result(self, 255)->Ok_0;
                    let nonce = nonce_bytes(
                        old(crypto_engine).spec_mac(),
                        old(crypto_engine).spec_counter(),
                    );
                    let sealed = aes_ccm_sealed(old(crypto_engine).spec_key(), nonce, p);
                    assert(buffer@ =~= seq![ENCRYPTED_MARKER] + sealed.subrange(0, p.len() as int)
                        + le32(old(crypto_engine).spec_counter() as int) + sealed.skip(
                        p.len() as int,
                    ));
                }
                Ok(buffer)
            },
        }
    }
}

} // verus!
