//! Stream ciphers, and the encrypted frames of the control streams.

use crate::bytes::{
    be_bytes, be_value, law_be_u32, law_be_u64, slice_of, u32_from_be, u32_to_be, u64_from_be,
};
use crate::error::{Error, ErrorKind};
use crate::items::{cipher_number, cipher_of_number, iv_len, key_len, Cipher, Crypto, CryptoView};
use ::cipher::{KeyIvInit, StreamCipher, StreamCipherSeek};
use aes::{Aes128, Aes192, Aes256};
use chacha20::{ChaCha20, ChaCha8};
use ctr::Ctr128BE;
use rand::rngs::{OsRng, StdRng};
use rand::{RngCore, SeedableRng};
use vstd::prelude::*;

verus! {

/// The byte at `index` of the keystream of AES-128 in counter mode with a 128-bit big-endian
/// counter.
pub uninterp spec fn aes128_keystream(key: Seq<u8>, iv: Seq<u8>, index: int) -> u8;

/// The byte at `index` of the keystream of AES-192 in counter mode with a 128-bit big-endian
/// counter.
pub uninterp spec fn aes192_keystream(key: Seq<u8>, iv: Seq<u8>, index: int) -> u8;

/// The byte at `index` of the keystream of AES-256 in counter mode with a 128-bit big-endian
/// counter.
pub uninterp spec fn aes256_keystream(key: Seq<u8>, iv: Seq<u8>, index: int) -> u8;

/// The byte at `index` of the keystream of ChaCha with 8 rounds and a 96-bit nonce.
pub uninterp spec fn chacha8_keystream(key: Seq<u8>, iv: Seq<u8>, index: int) -> u8;

/// The byte at `index` of the keystream of ChaCha with 20 rounds and a 96-bit nonce.
pub uninterp spec fn chacha20_keystream(key: Seq<u8>, iv: Seq<u8>, index: int) -> u8;

/// The bytes that `StdRng` hands out first when it is seeded with a number.
pub uninterp spec fn seeded_bytes(seed: u64, len: nat) -> Seq<u8>;

/// The byte at `index` of the keystream that a cipher combines with the data.
pub open spec fn keystream(cipher: Cipher, key: Seq<u8>, iv: Seq<u8>, index: int) -> u8 {
    match cipher {
        Cipher::NoCipher => 0,
        Cipher::Aes128 => aes128_keystream(key, iv, index),
        Cipher::Aes192 => aes192_keystream(key, iv, index),
        Cipher::Aes256 => aes256_keystream(key, iv, index),
        Cipher::Chacha8 => chacha8_keystream(key, iv, index),
        Cipher::Chacha20 => chacha20_keystream(key, iv, index),
    }
}

/// Where the keystream of ChaCha ends: its block counter has 32 bits, a block has 64 bytes,
/// and the last block is not handed out.
pub open spec fn chacha_end() -> int {
    64int * 0xffff_ffff
}

/// Where the keystream of a cipher ends, as far as positions of 64 bits reach.
pub open spec fn keystream_end(cipher: Cipher) -> int {
    match cipher {
        Cipher::Chacha8 | Cipher::Chacha20 => chacha_end(),
        _ => u64::MAX as int,
    }
}

impl Cipher {
    /// Where the keystream ends, as far as positions of 64 bits reach.
    pub fn keystream_end(&self) -> (end: u64)
        ensures
            end == keystream_end(*self),
    {
        match self {
            Cipher::Chacha8 | Cipher::Chacha20 => 64 * 0xffff_ffff,
            _ => u64::MAX,
        }
    }
}

/// AES-128 in counter mode: `Ctr128BE::<Aes128>` of the crates `ctr` and `aes`, made of the key
/// and the initialisation vector, moved to `position` with `seek`, and applied to the data with
/// `apply_keystream`, which XORs each byte with the keystream byte of its position. With a
/// counter of 128 bits no position of 64 bits is past the end.
#[verifier::external_body]
fn apply_aes128(key: &Vec<u8>, iv: &Vec<u8>, position: u64, data: &mut Vec<u8>)
    requires
        key@.len() == 16,
        iv@.len() == 16,
        position + old(data)@.len() <= u64::MAX,
    ensures
        final(data)@ == Seq::new(
            old(data)@.len(),
            |i: int| old(data)@[i] ^ aes128_keystream(key@, iv@, position + i),
        ),
{
    let mut cipher = Ctr128BE::<Aes128>::new(key.as_slice().into(), iv.as_slice().into());
    cipher.seek(position);
    cipher.apply_keystream(data);
}

/// AES-192 in counter mode: `Ctr128BE::<Aes192>` of the crates `ctr` and `aes`, made of the key
/// and the initialisation vector, moved to `position` with `seek`, and applied to the data with
/// `apply_keystream`, which XORs each byte with the keystream byte of its position. With a
/// counter of 128 bits no position of 64 bits is past the end.
#[verifier::external_body]
fn apply_aes192(key: &Vec<u8>, iv: &Vec<u8>, position: u64, data: &mut Vec<u8>)
    requires
        key@.len() == 24,
        iv@.len() == 16,
        position + old(data)@.len() <= u64::MAX,
    ensures
        final(data)@ == Seq::new(
            old(data)@.len(),
            |i: int| old(data)@[i] ^ aes192_keystream(key@, iv@, position + i),
        ),
{
    let mut cipher = Ctr128BE::<Aes192>::new(key.as_slice().into(), iv.as_slice().into());
    cipher.seek(position);
    cipher.apply_keystream(data);
}

/// AES-256 in counter mode: `Ctr128BE::<Aes256>` of the crates `ctr` and `aes`, made of the key
/// and the initialisation vector, moved to `position` with `seek`, and applied to the data with
/// `apply_keystream`, which XORs each byte with the keystream byte of its position. With a
/// counter of 128 bits no position of 64 bits is past the end.
#[verifier::external_body]
fn apply_aes256(key: &Vec<u8>, iv: &Vec<u8>, position: u64, data: &mut Vec<u8>)
    requires
        key@.len() == 32,
        iv@.len() == 16,
        position + old(data)@.len() <= u64::MAX,
    ensures
        final(data)@ == Seq::new(
            old(data)@.len(),
            |i: int| old(data)@[i] ^ aes256_keystream(key@, iv@, position + i),
        ),
{
    let mut cipher = Ctr128BE::<Aes256>::new(key.as_slice().into(), iv.as_slice().into());
    cipher.seek(position);
    cipher.apply_keystream(data);
}

/// `ChaCha8` of the crate `chacha20`, made of the key and the nonce, moved to `position` with
/// `seek`, and applied to the data with `apply_keystream`, which XORs each byte with the
/// keystream byte of its position. Both panic past the end of the keystream.
#[verifier::external_body]
fn apply_chacha8(key: &Vec<u8>, iv: &Vec<u8>, position: u64, data: &mut Vec<u8>)
    requires
        key@.len() == 32,
        iv@.len() == 12,
        position + old(data)@.len() <= chacha_end(),
    ensures
        final(data)@ == Seq::new(
            old(data)@.len(),
            |i: int| old(data)@[i] ^ chacha8_keystream(key@, iv@, position + i),
        ),
{
    let mut cipher = ChaCha8::new(key.as_slice().into(), iv.as_slice().into());
    cipher.seek(position);
    cipher.apply_keystream(data);
}

/// `ChaCha20` of the crate `chacha20`, made of the key and the nonce, moved to `position` with
/// `seek`, and applied to the data with `apply_keystream`, which XORs each byte with the
/// keystream byte of its position. Both panic past the end of the keystream.
#[verifier::external_body]
fn apply_chacha20(key: &Vec<u8>, iv: &Vec<u8>, position: u64, data: &mut Vec<u8>)
    requires
        key@.len() == 32,
        iv@.len() == 12,
        position + old(data)@.len() <= chacha_end(),
    ensures
        final(data)@ == Seq::new(
            old(data)@.len(),
            |i: int| old(data)@[i] ^ chacha20_keystream(key@, iv@, position + i),
        ),
{
    let mut cipher = ChaCha20::new(key.as_slice().into(), iv.as_slice().into());
    cipher.seek(position);
    cipher.apply_keystream(data);
}

/// `StdRng::seed_from_u64` and `fill_bytes` of the crate `rand`: the generator is ChaCha with 12
/// rounds, keyed with a seed that is expanded by fixed arithmetic, so the bytes depend on nothing
/// but the seed and how many are asked for.
#[verifier::external_body]
fn bytes_from_seed(seed: u64, len: usize) -> (bytes: Vec<u8>)
    ensures
        bytes@ == seeded_bytes(seed, len as nat),
        bytes@.len() == len,
{
    let mut bytes = vec![0; len];
    StdRng::seed_from_u64(seed).fill_bytes(&mut bytes);
    bytes
}

/// `OsRng.fill_bytes` of the crate `rand`: fills the whole buffer with random bytes. Nothing
/// else holds of every outcome.
#[verifier::external_body]
pub(crate) fn random_bytes(len: usize) -> (bytes: Vec<u8>)
    ensures
        bytes@.len() == len,
{
    let mut bytes = vec![0; len];
    OsRng.fill_bytes(&mut bytes);
    bytes
}

/// `data` combined with the keystream of a cipher from `position` on.
pub open spec fn applied(
    cipher: Cipher,
    key: Seq<u8>,
    iv: Seq<u8>,
    position: int,
    data: Seq<u8>,
) -> Seq<u8> {
    Seq::new(data.len(), |i: int| data[i] ^ keystream(cipher, key, iv, position + i))
}

/// A cipher with its key and initialisation vector: what determines a keystream.
pub struct StreamKey {
    pub cipher: Cipher,
    pub key: Seq<u8>,
    pub iv: Seq<u8>,
}

impl StreamKey {
    /// `data` combined with the keystream from `position` on.
    pub open spec fn apply(self, position: int, data: Seq<u8>) -> Seq<u8> {
        applied(self.cipher, self.key, self.iv, position, data)
    }

    /// Whether the keystream reaches up to `position`.
    pub open spec fn reaches(self, position: int) -> bool {
        self.cipher == Cipher::NoCipher || position <= keystream_end(self.cipher)
    }
}

/// The keystream of complete cipher settings.
pub open spec fn stream_key(crypto: CryptoView) -> StreamKey
    recommends
        crypto_ready(crypto),
{
    let cipher = cipher_of_number(crypto.cipher)->0;
    StreamKey {
        cipher,
        key: crypto.key.take(key_len(cipher) as int),
        iv: crypto.iv.take(iv_len(cipher) as int),
    }
}

/// A stream cipher at some position of its keystream.
#[derive(Debug)]
pub struct StreamCipherWrapper {
    cipher: Cipher,
    key: Vec<u8>,
    iv: Vec<u8>,
    position: u64,
}

impl StreamCipherWrapper {
    /// Key and initialisation vector have the lengths that the cipher asks for.
    pub closed spec fn wf(&self) -> bool {
        &&& self.key@.len() == key_len(self.cipher)
        &&& self.iv@.len() == iv_len(self.cipher)
    }

    pub closed spec fn spec_cipher(&self) -> Cipher {
        self.cipher
    }

    pub closed spec fn spec_key(&self) -> Seq<u8> {
        self.key@
    }

    pub closed spec fn spec_iv(&self) -> Seq<u8> {
        self.iv@
    }

    /// The index of the next byte of the keystream.
    pub closed spec fn spec_position(&self) -> int {
        self.position as int
    }

    /// What determines the keystream.
    pub open spec fn stream_key(&self) -> StreamKey {
        StreamKey { cipher: self.spec_cipher(), key: self.spec_key(), iv: self.spec_iv() }
    }

    /// Whether the next byte of the keystream is the one of `position`, as far as there is a
    /// keystream.
    pub open spec fn stands_at(&self, position: int) -> bool {
        self.spec_cipher() == Cipher::NoCipher || self.spec_position() == position
    }

    /// Whether two ciphers have the same keystream.
    pub open spec fn same_stream(&self, other: &StreamCipherWrapper) -> bool {
        &&& self.spec_cipher() == other.spec_cipher()
        &&& self.spec_key() == other.spec_key()
        &&& self.spec_iv() == other.spec_iv()
    }

    /// What the cipher makes of `data` at its present position.
    pub open spec fn on(&self, data: Seq<u8>) -> Seq<u8> {
        applied(
            self.spec_cipher(),
            self.spec_key(),
            self.spec_iv(),
            self.spec_position(),
            data,
        )
    }

    /// Whether `len` more bytes of the keystream are there.
    pub open spec fn has(&self, len: int) -> bool {
        self.spec_cipher() == Cipher::NoCipher || self.spec_position() + len <= keystream_end(
            self.spec_cipher(),
        )
    }

    /// The position after `len` more bytes; there is none to keep where there is no cipher.
    pub open spec fn position_after(&self, len: int) -> int {
        if self.spec_cipher() == Cipher::NoCipher {
            self.spec_position()
        } else {
            self.spec_position() + len
        }
    }

    /// Whether the keystream suffices for so many more bytes.
    pub fn has_keystream(&self, len: usize) -> (has: bool)
        ensures
            has == self.has(len as int),
    {
        match self.cipher {
            Cipher::NoCipher => true,
            _ => {
                let end: u64 = self.cipher.keystream_end();
                self.position <= end && len as u64 <= end - self.position
            },
        }
    }

    /// Moves to a position of the keystream.
    pub fn seek(&mut self, index: u64)
        requires
            old(self).wf(),
            old(self).spec_cipher() == Cipher::Chacha8 || old(self).spec_cipher()
                == Cipher::Chacha20 ==> index < 64 * 0x1_0000_0000,
        ensures
            final(self).wf(),
            final(self).same_stream(old(self)),
            final(self).spec_position() == if old(self).spec_cipher() == Cipher::NoCipher {
                old(self).spec_position()
            } else {
                index as int
            },
    {
        match self.cipher {
            Cipher::NoCipher => {},
            _ => {
                self.position = index;
            },
        }
    }

    /// Combines the data with the keystream, and moves behind what was used of it.
    pub fn apply_keystream(&mut self, data: &mut Vec<u8>)
        requires
            old(self).wf(),
            old(self).has(old(data)@.len() as int),
        ensures
            final(self).wf(),
            final(self).same_stream(old(self)),
            final(data)@ == old(self).on(old(data)@),
            final(self).spec_position() == old(self).position_after(old(data)@.len() as int),
    {
        let len: usize = data.len();
        match self.cipher {
            Cipher::NoCipher => {
                proof {
                    lemma_xor_zero(data@);
                    assert(self.on(data@) =~= data@);
                }
                return;
            },
            Cipher::Aes128 => apply_aes128(&self.key, &self.iv, self.position, data),
            Cipher::Aes192 => apply_aes192(&self.key, &self.iv, self.position, data),
            Cipher::Aes256 => apply_aes256(&self.key, &self.iv, self.position, data),
            Cipher::Chacha8 => apply_chacha8(&self.key, &self.iv, self.position, data),
            Cipher::Chacha20 => apply_chacha20(&self.key, &self.iv, self.position, data),
        }
        proof {
            assert(data@ =~= old(self).on(old(data)@));
        }
        self.position = self.position + len as u64;
    }
}

proof fn lemma_xor_zero(data: Seq<u8>)
    ensures
        forall|i: int| 0 <= i < data.len() ==> #[trigger] data[i] ^ 0u8 == data[i],
{
    assert forall|i: int| 0 <= i < data.len() implies #[trigger] data[i] ^ 0u8 == data[i] by {
        let x = data[i];
        assert(x ^ 0u8 == x) by (bit_vector);
    }
}

/// Applying a keystream twice from the same position gives the data back: what one side
/// encrypts, the other decrypts.
pub proof fn law_apply_twice(
    cipher: Cipher,
    key: Seq<u8>,
    iv: Seq<u8>,
    position: int,
    data: Seq<u8>,
)
    ensures
        applied(cipher, key, iv, position, applied(cipher, key, iv, position, data)) == data,
{
    let once = applied(cipher, key, iv, position, data);
    assert forall|i: int| 0 <= i < data.len() implies #[trigger] once[i] ^ keystream(
        cipher,
        key,
        iv,
        position + i,
    ) == data[i] by {
        let x = data[i];
        let k = keystream(cipher, key, iv, position + i);
        assert((x ^ k) ^ k == x) by (bit_vector);
    }
    assert(applied(cipher, key, iv, position, once) =~= data);
}

/// It makes no difference in how many pieces data is put through a cipher.
pub proof fn law_apply_pieces(
    cipher: Cipher,
    key: Seq<u8>,
    iv: Seq<u8>,
    position: int,
    first: Seq<u8>,
    second: Seq<u8>,
)
    ensures
        applied(cipher, key, iv, position, first + second) == applied(
            cipher,
            key,
            iv,
            position,
            first,
        ) + applied(cipher, key, iv, position + first.len(), second),
{
    assert(applied(cipher, key, iv, position, first + second) =~= applied(
        cipher,
        key,
        iv,
        position,
        first,
    ) + applied(cipher, key, iv, position + first.len(), second));
}

/// Whether cipher settings are complete: the cipher is known, and there are enough bytes of
/// key and initialisation vector for it.
pub open spec fn crypto_ready(crypto: CryptoView) -> bool {
    match cipher_of_number(crypto.cipher) {
        Some(cipher) => crypto.key.len() >= key_len(cipher) && crypto.iv.len() >= iv_len(cipher),
        None => false,
    }
}

/// The initialisation vector that follows the one of the given settings.
pub open spec fn following_iv(crypto: CryptoView) -> Seq<u8> {
    if crypto.cipher == cipher_number(Cipher::NoCipher) {
        crypto.iv
    } else {
        seeded_bytes(be_value(crypto.iv.take(8)) as u64, crypto.iv.len())
    }
}

/// The settings with the initialisation vector that follows theirs.
pub open spec fn following_crypto(crypto: CryptoView) -> CryptoView {
    CryptoView { iv: following_iv(crypto), ..crypto }
}

/// What a number that stands for no cipher is answered.
pub open spec fn unknown_cipher_text() -> Seq<char> {
    "failed to decode Protobuf message: invalid enumeration value"@
}

impl StreamCipherWrapper {
    /// Whether this is the cipher of the given settings at the start of its keystream.
    pub open spec fn starts(&self, crypto: CryptoView) -> bool {
        &&& self.wf()
        &&& crypto_ready(crypto)
        &&& self.stream_key() == stream_key(crypto)
        &&& self.spec_position() == 0
    }
}

impl Crypto {
    /// deterministically derive a new iv from the given iv
    pub fn next_iv(&mut self)
        requires
            old(self).cipher != cipher_number(Cipher::NoCipher) ==> old(self).iv@.len() >= 8,
        ensures
            final(self)@ == following_crypto(old(self)@),
            final(self).iv@.len() == old(self).iv@.len(),
    {
        if self.cipher == Cipher::NoCipher.number() {
            return;
        }
        // create a seed from the first 8 bytes of the iv
        let seed: u64 = u64_from_be(&self.iv, 0);
        proof {
            assert(self.iv@.subrange(0, 8) == self.iv@.take(8));
        }
        self.iv = bytes_from_seed(seed, self.iv.len());
    }

    /// randomize the iv
    pub fn random_iv(&mut self)
        ensures
            final(self).cipher == old(self).cipher,
            final(self).key@ == old(self).key@,
            final(self).iv@.len() == old(self).iv@.len(),
            old(self).cipher == cipher_number(Cipher::NoCipher) ==> final(self)@ == old(self)@,
    {
        if self.cipher == Cipher::NoCipher.number() {
            return;
        }
        let iv = random_bytes(self.iv.len());
        self.set_iv(iv);
    }

    /// Takes another initialisation vector, and leaves the cipher and the key as they are.
    pub fn set_iv(&mut self, iv: Vec<u8>)
        ensures
            final(self)@ == (CryptoView { iv: iv@, ..old(self)@ }),
    {
        self.iv = iv;
    }

    /// create a new cipher
    pub fn make_cipher(&self) -> (result: Result<StreamCipherWrapper, Error>)
        requires
            cipher_of_number(self.cipher) is Some ==> crypto_ready(self@),
        ensures
            match result {
                Ok(stream) => stream.starts(self@),
                Err(error) => cipher_of_number(self.cipher) is None
                    && (error.kind matches ErrorKind::Decode(text) && text@
                    == unknown_cipher_text()),
            },
    {
        match Cipher::from_number(self.cipher) {
            None => Err(
                Error::new(
                    ErrorKind::Decode(
                        "failed to decode Protobuf message: invalid enumeration value".to_owned(),
                    ),
                ),
            ),
            Some(cipher) => {
                let key = slice_of(&self.key, 0, cipher.key_length());
                let iv = slice_of(&self.iv, 0, cipher.iv_length());
                proof {
                    assert(key@ =~= self.key@.take(key_len(cipher) as int));
                    assert(iv@ =~= self.iv@.take(iv_len(cipher) as int));
                }
                Ok(StreamCipherWrapper { cipher, key, iv, position: 0 })
            },
        }
    }
}

/// The frame of a message before encryption: its length in four bytes, then the message.
pub open spec fn plain_frame(payload: Seq<u8>) -> Seq<u8> {
    be_bytes(payload.len() % 0x1_0000_0000, 4) + payload
}

/// One end of a control stream: every byte that goes through it is combined with the keystream
/// of one cipher.
#[derive(Debug)]
pub struct CipherStream {
    pub cipher: StreamCipherWrapper,
}

impl CipherStream {
    pub fn new(crypto: &Crypto) -> (result: Result<Self, Error>)
        requires
            cipher_of_number(crypto.cipher) is Some ==> crypto_ready(crypto@),
        ensures
            match result {
                Ok(stream) => stream.cipher.starts(crypto@),
                Err(error) => cipher_of_number(crypto.cipher) is None
                    && (error.kind matches ErrorKind::Decode(text) && text@
                    == unknown_cipher_text()),
            },
    {
        match crypto.make_cipher() {
            Ok(cipher) => Ok(CipherStream { cipher }),
            Err(error) => Err(error),
        }
    }

    /// What to write to the connection for a message: its length and the message itself,
    /// encrypted.
    pub fn write_message(&mut self, payload: &Vec<u8>) -> (frame: Vec<u8>)
        requires
            old(self).cipher.wf(),
            old(self).cipher.has(4int + payload@.len()),
        ensures
            final(self).cipher.wf(),
            final(self).cipher.same_stream(&old(self).cipher),
            frame@ == old(self).cipher.on(plain_frame(payload@)),
            frame@.len() == 4 + payload@.len(),
            final(self).cipher.spec_position() == old(self).cipher.position_after(
                4int + payload@.len(),
            ),
    {
        let ghost start = self.cipher;
        let mut frame = self.write_u32(truncated_len(payload.len()));
        let mut body = slice_of(payload, 0, payload.len());
        proof {
            assert(body@ =~= payload@);
            law_apply_pieces(
                start.spec_cipher(),
                start.spec_key(),
                start.spec_iv(),
                start.spec_position(),
                be_bytes(payload@.len() % 0x1_0000_0000, 4),
                payload@,
            );
            if start.spec_cipher() == Cipher::NoCipher {
                assert(self.cipher.on(payload@) =~= applied(
                    start.spec_cipher(),
                    start.spec_key(),
                    start.spec_iv(),
                    start.spec_position() + 4,
                    payload@,
                ));
            }
        }
        self.write_all(&mut body);
        frame.append(&mut body);
        frame
    }

    /// Decrypts bytes that came out of the connection.
    pub fn read_exact(&mut self, buf: &mut Vec<u8>)
        requires
            old(self).cipher.wf(),
            old(self).cipher.has(old(buf)@.len() as int),
        ensures
            final(self).cipher.wf(),
            final(self).cipher.same_stream(&old(self).cipher),
            final(buf)@ == old(self).cipher.on(old(buf)@),
            final(self).cipher.spec_position() == old(self).cipher.position_after(
                old(buf)@.len() as int,
            ),
    {
        self.cipher.apply_keystream(buf);
    }

    /// Decrypts the four bytes that stand before a message: the message's length.
    pub fn read_u32(&mut self, header: Vec<u8>) -> (value: u32)
        requires
            old(self).cipher.wf(),
            old(self).cipher.has(4),
            header@.len() == 4,
        ensures
            final(self).cipher.wf(),
            final(self).cipher.same_stream(&old(self).cipher),
            value == be_value(old(self).cipher.on(header@)),
            final(self).cipher.spec_position() == old(self).cipher.position_after(4),
    {
        let mut buf = header;
        self.read_exact(&mut buf);
        proof {
            assert(buf@.subrange(0, 4) =~= buf@);
        }
        u32_from_be(&buf, 0)
    }

    /// Encrypts bytes on their way into the connection.
    fn write_all(&mut self, buf: &mut Vec<u8>)
        requires
            old(self).cipher.wf(),
            old(self).cipher.has(old(buf)@.len() as int),
        ensures
            final(self).cipher.wf(),
            final(self).cipher.same_stream(&old(self).cipher),
            final(buf)@ == old(self).cipher.on(old(buf)@),
            final(self).cipher.spec_position() == old(self).cipher.position_after(
                old(buf)@.len() as int,
            ),
    {
        self.cipher.apply_keystream(buf);
    }

    /// Encrypts a number on its way into the connection.
    fn write_u32(&mut self, value: u32) -> (bytes: Vec<u8>)
        requires
            old(self).cipher.wf(),
            old(self).cipher.has(4),
        ensures
            final(self).cipher.wf(),
            final(self).cipher.same_stream(&old(self).cipher),
            bytes@ == old(self).cipher.on(be_bytes(value as nat, 4)),
            bytes@.len() == 4,
            final(self).cipher.spec_position() == old(self).cipher.position_after(4),
    {
        let mut buf = u32_to_be(value);
        self.write_all(&mut buf);
        buf
    }
}

/// The low 32 bits of a length.
fn truncated_len(len: usize) -> (value: u32)
    ensures
        value == len as nat % 0x1_0000_0000,
{
    (len as u64 % 0x1_0000_0000) as u32
}

/// A message that one end of a control stream writes, the other end reads: the length that
/// stands before it is its length, and what follows is the message. It holds of messages
/// whose length four bytes hold.
pub proof fn law_frame(
    cipher: Cipher,
    key: Seq<u8>,
    iv: Seq<u8>,
    position: int,
    payload: Seq<u8>,
)
    requires
        payload.len() < 0x1_0000_0000,
    ensures
        ({
            let frame = applied(cipher, key, iv, position, plain_frame(payload));
            &&& frame.len() == 4 + payload.len()
            &&& be_value(applied(cipher, key, iv, position, frame.take(4))) == payload.len()
            &&& applied(cipher, key, iv, position + 4, frame.skip(4)) == payload
        }),
{
    let len = payload.len() as u32;
    law_be_u32(len);
    let header = be_bytes(payload.len(), 4);
    law_apply_pieces(cipher, key, iv, position, header, payload);
    let frame = applied(cipher, key, iv, position, plain_frame(payload));
    assert(frame.take(4) =~= applied(cipher, key, iv, position, header));
    assert(frame.skip(4) =~= applied(cipher, key, iv, position + 4, payload));
    law_apply_twice(cipher, key, iv, position, header);
    law_apply_twice(cipher, key, iv, position + 4, payload);
}

/// What a cipher makes of data is the keystream's doing at the position where the cipher stands,
/// and after it the cipher stands behind the data: so the ends of a control stream write and
/// read at the positions that the bytes have in it.
pub proof fn law_position(
    before: StreamCipherWrapper,
    after: StreamCipherWrapper,
    position: int,
    data: Seq<u8>,
)
    requires
        before.stands_at(position),
        after.same_stream(&before),
        after.spec_position() == before.position_after(data.len() as int),
    ensures
        before.on(data) == before.stream_key().apply(position, data),
        after.stands_at(position + data.len()),
        after.stream_key() == before.stream_key(),
{
    assert(before.on(data) =~= before.stream_key().apply(position, data));
}

/// The bytes that one end of a control stream writes for several messages, one after the other.
pub open spec fn written(key: StreamKey, position: int, payloads: Seq<Seq<u8>>) -> Seq<u8>
    decreases payloads.len(),
{
    if payloads.len() == 0 {
        Seq::empty()
    } else {
        let frame = key.apply(position, plain_frame(payloads[0]));
        frame + written(key, position + frame.len(), payloads.drop_first())
    }
}

/// What the other end has after it has read some messages.
pub struct Reading {
    /// the messages, in the order in which they were read
    pub payloads: Seq<Seq<u8>>,
    /// the position in the keystream
    pub position: int,
    /// the bytes that have not been read
    pub rest: Seq<u8>,
}

/// What the other end of a control stream reads: so many times four bytes, which are the length
/// of a message, and as many bytes as they say. `None` where the bytes do not suffice.
pub open spec fn read_messages(
    key: StreamKey,
    position: int,
    bytes: Seq<u8>,
    count: nat,
) -> Option<Reading>
    decreases count,
{
    if count == 0 {
        Some(Reading { payloads: Seq::empty(), position, rest: bytes })
    } else if bytes.len() < 4 {
        None
    } else {
        let len = be_value(key.apply(position, bytes.take(4)));
        if bytes.len() < 4 + len {
            None
        } else {
            let payload = key.apply(position + 4, bytes.subrange(4, 4int + len));
            match read_messages(
                key,
                position + 4 + len,
                bytes.skip(4int + len),
                (count - 1) as nat,
            ) {
                Some(later) => Some(
                    Reading { payloads: seq![payload] + later.payloads, ..later },
                ),
                None => None,
            }
        }
    }
}

/// How many bytes several messages take up: each its length and four bytes more.
pub open spec fn frames_len(payloads: Seq<Seq<u8>>) -> int
    decreases payloads.len(),
{
    if payloads.len() == 0 {
        0
    } else {
        4 + payloads[0].len() + frames_len(payloads.drop_first())
    }
}

/// Messages that one end of a control stream writes one after the other, the other end reads in
/// the same order, and it uses up exactly the bytes that were written, whatever follows them. It
/// holds of messages whose length four bytes hold.
pub proof fn law_frames(key: StreamKey, position: int, payloads: Seq<Seq<u8>>, rest: Seq<u8>)
    requires
        forall|i: int|
            0 <= i < payloads.len() ==> (#[trigger] payloads[i]).len() < 0x1_0000_0000,
    ensures
        written(key, position, payloads).len() == frames_len(payloads),
        read_messages(key, position, written(key, position, payloads) + rest, payloads.len())
            == Some(Reading { payloads, position: position + frames_len(payloads), rest }),
    decreases payloads.len(),
{
    let bytes = written(key, position, payloads) + rest;
    if payloads.len() == 0 {
        assert(bytes =~= rest);
        assert(payloads =~= Seq::empty());
    } else {
        let payload = payloads[0];
        let later = payloads.drop_first();
        let frame = key.apply(position, plain_frame(payload));
        law_frame(key.cipher, key.key, key.iv, position, payload);
        assert forall|i: int| 0 <= i < later.len() implies (#[trigger] later[i]).len()
            < 0x1_0000_0000 by {
            assert(later[i] == payloads[i + 1]);
        }
        law_frames(key, position + frame.len(), later, rest);
        assert(bytes.take(4) =~= frame.take(4));
        assert(bytes.subrange(4, 4int + payload.len()) =~= frame.skip(4));
        assert(bytes.skip(4int + payload.len()) =~= written(
            key,
            position + frame.len(),
            later,
        ) + rest);
        assert(seq![payload] + later =~= payloads);
    }
}

/// Without a cipher, data goes as it is; with one, every byte depends on nothing but itself and its
/// position.
pub proof fn law_applied(
    cipher: Cipher,
    key: Seq<u8>,
    iv: Seq<u8>,
    position: int,
    data: Seq<u8>,
    other: Seq<u8>,
    i: int,
)
    requires
        0 <= i < data.len(),
        other.len() == data.len(),
        other[i] == data[i],
    ensures
        applied(cipher, key, iv, position, data).len() == data.len(),
        applied(Cipher::NoCipher, key, iv, position, data) == data,
        applied(cipher, key, iv, position, data)[i] == applied(cipher, key, iv, position, other)[i],
        applied(cipher, key, iv, position, data)[i] == applied(
            cipher,
            key,
            iv,
            position + i,
            seq![data[i]],
        )[0],
{
    lemma_xor_zero(data);
    assert(applied(Cipher::NoCipher, key, iv, position, data) =~= data);
}

/// A cipher that is made of settings, moved to a position and applied to data gives what another
/// one of the same settings, at the same position, makes the data of again.
pub proof fn law_decrypts(
    wrapper: &mut StreamCipherWrapper,
    data: &mut Vec<u8>,
    other: StreamCipherWrapper,
)
    requires
        wrapper.wf(),
        wrapper.has(data@.len() as int),
        call_ensures(StreamCipherWrapper::apply_keystream, (wrapper, data), ()),
        other.same_stream(&*wrapper),
        other.spec_position() == wrapper.spec_position(),
    ensures
        final(data)@.len() == old(data)@.len(),
        other.on(final(data)@) == old(data)@,
        final(wrapper).same_stream(&*old(wrapper)),
        old(wrapper).spec_cipher() == Cipher::NoCipher ==> final(data)@ == old(data)@,
        old(wrapper).spec_cipher() != Cipher::NoCipher ==> final(wrapper).spec_position()
            == old(wrapper).spec_position() + old(data)@.len(),
{
    law_apply_twice(
        other.spec_cipher(),
        other.spec_key(),
        other.spec_iv(),
        other.spec_position(),
        old(data)@,
    );
    lemma_xor_zero(old(data)@);
    if old(wrapper).spec_cipher() == Cipher::NoCipher {
        assert(final(data)@ =~= old(data)@);
    }
}

/// A cipher moves to the position that it is told, where there is one, and stays the same cipher.
pub proof fn law_seek(wrapper: &mut StreamCipherWrapper, index: u64)
    requires
        wrapper.wf(),
        wrapper.spec_cipher() == Cipher::Chacha8 || wrapper.spec_cipher() == Cipher::Chacha20
            ==> index < 64 * 0x1_0000_0000,
        call_ensures(StreamCipherWrapper::seek, (wrapper, index), ()),
    ensures
        final(wrapper).same_stream(&*old(wrapper)),
        final(wrapper).stands_at(index as int),
{
}

/// The settings that fit their cipher are used as they are, of longer ones the beginning, and
/// shorter ones do not suffice. The cipher begins at the start of its keystream.
pub proof fn law_make_cipher(crypto: Crypto, result: Result<StreamCipherWrapper, Error>)
    requires
        cipher_of_number(crypto.cipher) is Some ==> crypto_ready(crypto@),
        call_ensures(Crypto::make_cipher, (&crypto,), result),
    ensures
        result is Ok <==> cipher_of_number(crypto.cipher) is Some,
        result matches Ok(stream) ==> {
            let cipher = cipher_of_number(crypto.cipher)->0;
            &&& stream.spec_cipher() == cipher
            &&& stream.spec_position() == 0
            &&& stream.spec_key().len() == key_len(cipher)
            &&& stream.spec_iv().len() == iv_len(cipher)
            &&& crypto.key@.len() >= key_len(cipher)
            &&& crypto.iv@.len() >= iv_len(cipher)
            &&& stream.spec_key() == crypto.key@.take(key_len(cipher) as int)
            &&& stream.spec_iv() == crypto.iv@.take(iv_len(cipher) as int)
        },
{
}

/// The following vector is derived from the number in the first eight bytes of the one before, and
/// from nothing else; without a cipher it stays. The cipher and the key stay.
pub proof fn law_next_iv(crypto: &mut Crypto, number: u64)
    requires
        crypto.cipher != 0 ==> crypto.iv@.len() >= 8,
        call_ensures(Crypto::next_iv, (crypto,), ()),
    ensures
        final(crypto).cipher == old(crypto).cipher,
        final(crypto).key@ == old(crypto).key@,
        final(crypto).iv@.len() == old(crypto).iv@.len(),
        old(crypto).cipher == 0 ==> final(crypto).iv@ == old(crypto).iv@,
        old(crypto).cipher != 0 && old(crypto).iv@.take(8) == be_bytes(number as nat, 8)
            ==> final(crypto).iv@ == seeded_bytes(number, old(crypto).iv@.len()),
{
    law_be_u64(number);
}

/// The keystream of ChaCha ends with its block counter, that of AES does not end.
pub proof fn law_keystream_end(cipher: Cipher, end: u64)
    requires
        call_ensures(Cipher::keystream_end, (&cipher,), end),
    ensures
        cipher == Cipher::Chacha8 || cipher == Cipher::Chacha20 ==> end + 64 == 64 * 0x1_0000_0000,
        cipher != Cipher::Chacha8 && cipher != Cipher::Chacha20 ==> end == u64::MAX,
        end == keystream_end(cipher),
{
}

/// A message that is written to a control stream is read by an end that stands at the same place:
/// first its length, then the message.
pub proof fn law_message(
    stream: &mut CipherStream,
    payload: Vec<u8>,
    frame: Vec<u8>,
    header: Vec<u8>,
    reader: &mut CipherStream,
    value: u32,
    body: Seq<u8>,
)
    requires
        stream.cipher.wf(),
        stream.cipher.has(4int + payload@.len()),
        payload@.len() < 0x1_0000_0000,
        call_ensures(CipherStream::write_message, (stream, &payload), frame),
        reader.cipher.wf(),
        reader.cipher.same_stream(&stream.cipher),
        reader.cipher.spec_position() == stream.cipher.spec_position(),
        header@ == frame@.take(4),
        body == frame@.skip(4),
        call_ensures(CipherStream::read_u32, (reader, header), value),
    ensures
        frame@.len() == 4 + payload@.len(),
        value == payload@.len(),
        final(reader).cipher.on(body) == payload@,
        final(reader).cipher.same_stream(&old(stream).cipher),
        final(stream).cipher.same_stream(&old(stream).cipher),
{
    let cipher = old(stream).cipher;
    law_frame(
        cipher.spec_cipher(),
        cipher.spec_key(),
        cipher.spec_iv(),
        cipher.spec_position(),
        payload@,
    );
    if cipher.spec_cipher() == Cipher::NoCipher {
        assert(final(reader).cipher.on(body) =~= applied(
            cipher.spec_cipher(),
            cipher.spec_key(),
            cipher.spec_iv(),
            cipher.spec_position() + 4,
            body,
        ));
    }
}

/// Every cipher combines the data with its own keystream.
pub proof fn law_keystreams(key: Seq<u8>, iv: Seq<u8>, position: int, byte: u8)
    ensures
        applied(Cipher::Aes128, key, iv, position, seq![byte])[0] == byte ^ aes128_keystream(
            key,
            iv,
            position,
        ),
        applied(Cipher::Aes192, key, iv, position, seq![byte])[0] == byte ^ aes192_keystream(
            key,
            iv,
            position,
        ),
        applied(Cipher::Aes256, key, iv, position, seq![byte])[0] == byte ^ aes256_keystream(
            key,
            iv,
            position,
        ),
        applied(Cipher::Chacha8, key, iv, position, seq![byte])[0] == byte ^ chacha8_keystream(
            key,
            iv,
            position,
        ),
        applied(Cipher::Chacha20, key, iv, position, seq![byte])[0] == byte ^ chacha20_keystream(
            key,
            iv,
            position,
        ),
{
}

/// Another vector is the only thing that changes, whether it is given or random; without a cipher,
/// a random one changes nothing.
pub proof fn law_other_iv(given: &mut Crypto, iv: Vec<u8>, random: &mut Crypto)
    requires
        call_ensures(Crypto::set_iv, (given, iv), ()),
        call_ensures(Crypto::random_iv, (random,), ()),
    ensures
        final(given).cipher == old(given).cipher,
        final(given).key@ == old(given).key@,
        final(given).iv@ == iv@,
        final(random).cipher == old(random).cipher,
        final(random).key@ == old(random).key@,
        final(random).iv@.len() == old(random).iv@.len(),
        old(random).cipher == 0 ==> final(random).iv@ == old(random).iv@,
{
}

/// The keystream suffices exactly up to its end; without a cipher there is none to run out of.
pub proof fn law_has_keystream(wrapper: StreamCipherWrapper, len: usize, has: bool)
    requires
        call_ensures(StreamCipherWrapper::has_keystream, (&wrapper, len), has),
    ensures
        wrapper.spec_cipher() == Cipher::NoCipher ==> has,
        wrapper.spec_cipher() == Cipher::Chacha8 || wrapper.spec_cipher() == Cipher::Chacha20 ==> (
        has <==> wrapper.spec_position() + len <= 64 * 0xffff_ffff),
        wrapper.spec_cipher() == Cipher::Aes128 || wrapper.spec_cipher() == Cipher::Aes192
            || wrapper.spec_cipher() == Cipher::Aes256 ==> (has <==> wrapper.spec_position() + len
            <= u64::MAX),
{
}

} // verus!
