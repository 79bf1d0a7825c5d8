//! Cipher settings as text: the cipher's name, the key and the initialisation vector.

use crate::cipher::{crypto_ready, random_bytes};
use crate::items::{
    cipher_name, cipher_number, cipher_of_name, cipher_of_number, iv_len, key_len,
    law_cipher_names, law_cipher_numbers, Cipher, Crypto, CryptoView,
};
use crate::options::{DecodeError, Error, ErrorKind};
use crate::text::{first_field, lemma_first_field, rest_fields, split_field};
use base64::engine::general_purpose::STANDARD_NO_PAD;
use base64::Engine;
use vstd::prelude::*;

verus! {

/// A text in upper case.
pub uninterp spec fn uppercased(text: Seq<char>) -> Seq<char>;

/// What bytes are in base64 without padding.
pub uninterp spec fn base64_encoded(bytes: Seq<u8>) -> Seq<char>;

/// The bytes that a text in base64 without padding stands for, or what is wrong with it.
pub uninterp spec fn base64_decoded(text: Seq<char>) -> Result<Seq<u8>, DecodeError>;

/// Whether a text consists of ASCII characters.
pub open spec fn is_ascii_text(text: Seq<char>) -> bool {
    forall|i: int| 0 <= i < text.len() ==> (#[trigger] text[i]) as u32 <= 127
}

/// An ASCII character in upper case.
pub open spec fn ascii_upper(c: char) -> char {
    if 'a' <= c <= 'z' {
        ((c as u32) - 32) as char
    } else {
        c
    }
}

/// A text in upper case: of an ASCII text, each character by itself.
pub open spec fn upper(text: Seq<char>) -> Seq<char> {
    if is_ascii_text(text) {
        text.map_values(|c: char| ascii_upper(c))
    } else {
        uppercased(text)
    }
}

/// Whether a text in base64 stands for some bytes.
pub open spec fn decodes_to(text: Seq<char>, bytes: Seq<u8>) -> bool {
    base64_decoded(text) matches Ok(decoded) && decoded == bytes
}

/// `str::to_uppercase`: the text in upper case as Unicode defines it. Of an ASCII text, each
/// letter from `a` to `z` becomes the capital letter, and the rest stays.
#[verifier::external_body]
fn to_uppercase(text: &str) -> (result: String)
    ensures
        result@ == uppercased(text@),
        is_ascii_text(text@) ==> result@ == text@.map_values(|c: char| ascii_upper(c)),
{
    text.to_uppercase()
}

/// `STANDARD_NO_PAD.encode` of the crate `base64`: it uses the letters, the digits, `+` and
/// `/`, and decoding gives back what was encoded. It panics where the length of the text
/// overflows.
#[verifier::external_body]
fn encode(bytes: &Vec<u8>) -> (text: String)
    requires
        bytes@.len() <= usize::MAX / 2,
    ensures
        text@ == base64_encoded(bytes@),
        decodes_to(text@, bytes@),
        !text@.contains(':'),
{
    STANDARD_NO_PAD.encode(bytes)
}

/// `STANDARD_NO_PAD.decode` of the crate `base64`.
#[verifier::external_body]
fn decode(text: &str) -> (result: Result<Vec<u8>, DecodeError>)
    ensures
        match result {
            Ok(bytes) => base64_decoded(text@) matches Ok(decoded) && decoded == bytes@,
            Err(error) => base64_decoded(text@) matches Err(fault) && fault == error,
        },
{
    STANDARD_NO_PAD.decode(text).map_err(
        |error| match error {
            base64::DecodeError::InvalidByte(offset, byte) => DecodeError::InvalidByte(offset, byte),
            base64::DecodeError::InvalidLength => DecodeError::InvalidLength,
            base64::DecodeError::InvalidLastSymbol(offset, symbol) => {
                DecodeError::InvalidLastSymbol(offset, symbol)
            },
            base64::DecodeError::InvalidPadding => DecodeError::InvalidPadding,
        },
    )
}

/// The fields of cipher settings: the cipher, if its name is known, and the decoded key and
/// initialisation vector, as far as they are given.
pub struct CryptoFields {
    pub cipher: Option<Cipher>,
    pub key: Option<Result<Seq<u8>, DecodeError>>,
    pub iv: Option<Result<Seq<u8>, DecodeError>>,
}

/// The field of a text in base64, where it is given.
pub open spec fn decoded_field(text: Option<Seq<char>>) -> Option<Result<Seq<u8>, DecodeError>> {
    match text {
        Some(text) => Some(base64_decoded(first_field(text, ':'))),
        None => None,
    }
}

/// What stands behind the first colon of a text, where there is one.
pub open spec fn next_field(text: Option<Seq<char>>) -> Option<Seq<char>> {
    match text {
        Some(text) => rest_fields(text, ':'),
        None => None,
    }
}

/// The fields of a text: the cipher's name, in any case, the key and the initialisation vector,
/// separated by colons. What stands behind a third colon is not looked at.
pub open spec fn crypto_fields(text: Seq<char>) -> CryptoFields {
    let behind_name = rest_fields(text, ':');
    CryptoFields {
        cipher: cipher_of_name(upper(first_field(text, ':'))),
        key: decoded_field(behind_name),
        iv: decoded_field(next_field(behind_name)),
    }
}

/// What is wrong with the fields of cipher settings, if anything.
pub open spec fn crypto_fault(fields: CryptoFields) -> Option<ErrorKind> {
    match fields.cipher {
        None => Some(ErrorKind::InvalidCipher),
        Some(cipher) => match (fields.key, fields.iv) {
            (Some(Err(error)), _) => Some(ErrorKind::Decode(error)),
            (_, Some(Err(error))) => Some(ErrorKind::Decode(error)),
            (Some(Ok(key)), _) if key.len() != key_len(cipher) => Some(ErrorKind::InvalidKey),
            (_, Some(Ok(iv))) if iv.len() != iv_len(cipher) => Some(ErrorKind::InvalidIv),
            _ => None,
        },
    }
}

/// Whether cipher settings are those of some fields: what is given is taken over, and what is
/// not has the length that the cipher asks for.
pub open spec fn crypto_matches(fields: CryptoFields, crypto: CryptoView) -> bool {
    &&& fields.cipher matches Some(cipher) && {
        &&& crypto.cipher == cipher_number(cipher)
        &&& crypto.key.len() == key_len(cipher)
        &&& crypto.iv.len() == iv_len(cipher)
    }
    &&& fields.key matches Some(Ok(key)) ==> crypto.key == key
    &&& fields.iv matches Some(Ok(iv)) ==> crypto.iv == iv
}

/// The field of a result that a wrapper handed out.
pub open spec fn field_view(field: Option<Result<Vec<u8>, DecodeError>>) -> Option<
    Result<Seq<u8>, DecodeError>,
> {
    match field {
        Some(Ok(bytes)) => Some(Ok(bytes@)),
        Some(Err(error)) => Some(Err(error)),
        None => None,
    }
}

impl Crypto {
    /// The settings of the given fields; a key or an initialisation vector that is not given is
    /// chosen at random.
    pub fn from_fields(
        cipher: Option<Cipher>,
        key: Option<Result<Vec<u8>, DecodeError>>,
        iv: Option<Result<Vec<u8>, DecodeError>>,
    ) -> (result: Result<Crypto, Error>)
        ensures
            ({
                let fields = CryptoFields { cipher, key: field_view(key), iv: field_view(iv) };
                match result {
                    Ok(crypto) => crypto_fault(fields) is None && crypto_matches(fields, crypto@),
                    Err(error) => crypto_fault(fields) == Some(error.kind),
                }
            }),
    {
        let cipher = match cipher {
            Some(cipher) => cipher,
            None => return Err(Error::invalid_cipher()),
        };
        let key = match key {
            // propagate the decode error
            Some(Err(error)) => return Err(Error { kind: ErrorKind::Decode(error) }),
            Some(Ok(key)) => key,
            None => random_bytes(cipher.key_length()),
        };
        let iv = match iv {
            // propagate the decode error
            Some(Err(error)) => return Err(Error { kind: ErrorKind::Decode(error) }),
            Some(Ok(iv)) => iv,
            None => random_bytes(cipher.iv_length()),
        };
        if key.len() != cipher.key_length() {
            Err(Error::invalid_key())
        } else if iv.len() != cipher.iv_length() {
            Err(Error::invalid_iv())
        } else {
            Ok(Crypto { cipher: cipher.number(), key, iv })
        }
    }

    /// Reads settings: the cipher's name, and behind colons the key and the initialisation
    /// vector in base64, each of which may be missing.
    pub fn from_str(text: &str) -> (result: Result<Crypto, Error>)
        ensures
            match result {
                Ok(crypto) => crypto_fault(crypto_fields(text@)) is None && crypto_matches(
                    crypto_fields(text@),
                    crypto@,
                ),
                Err(error) => crypto_fault(crypto_fields(text@)) == Some(error.kind),
            },
    {
        let (name, behind_name) = split_field(text, ':');
        let name = to_uppercase(name.as_str());
        let cipher = Cipher::from_str_name(name.as_str());
        if cipher.is_none() {
            return Err(Error::invalid_cipher());
        }
        let (key, behind_key) = match behind_name {
            None => (None, None),
            Some(fields) => {
                let (key, behind_key) = split_field(fields.as_str(), ':');
                (Some(decode(key.as_str())), behind_key)
            },
        };
        let iv = match behind_key {
            None => None,
            Some(fields) => {
                let (iv, behind_iv) = split_field(fields.as_str(), ':');
                Some(decode(iv.as_str()))
            },
        };
        Crypto::from_fields(cipher, key, iv)
    }

    /// How settings are written; `None` where the number stands for no cipher. What is written
    /// reads as these settings.
    pub fn text(&self) -> (text: Option<String>)
        requires
            self.key@.len() <= usize::MAX / 2,
            self.iv@.len() <= usize::MAX / 2,
        ensures
            match text {
                None => cipher_of_number(self.cipher) is None,
                Some(text) => {
                    &&& cipher_of_number(self.cipher) is Some
                    &&& text@ == crypto_text(self@)
                    &&& crypto_fields(text@) == (CryptoFields {
                        cipher: cipher_of_number(self.cipher),
                        key: Some(Ok(self.key@)),
                        iv: Some(Ok(self.iv@)),
                    })
                },
            },
    {
        match Cipher::from_number(self.cipher) {
            None => None,
            Some(cipher) => {
                // encode the key & iv to base64
                let key = encode(&self.key);
                let iv = encode(&self.iv);
                let text = cipher.name().to_owned().concat(":").concat(key.as_str()).concat(
                    ":",
                ).concat(iv.as_str());
                proof {
                    reveal_strlit(":");
                    assert(":"@ =~= seq![':']);
                    lemma_fields(cipher, key@, iv@);
                    assert(text@ =~= cipher_name(cipher) + seq![':'] + (key@ + seq![':'] + iv@));
                }
                Some(text)
            },
        }
    }
}

/// How cipher settings are written.
pub open spec fn crypto_text(crypto: CryptoView) -> Seq<char>
    recommends
        cipher_of_number(crypto.cipher) is Some,
{
    cipher_name(cipher_of_number(crypto.cipher)->0) + ":"@ + base64_encoded(crypto.key) + ":"@
        + base64_encoded(crypto.iv)
}

/// The name of a cipher is in upper case and has no colon.
proof fn lemma_name(cipher: Cipher)
    ensures
        upper(cipher_name(cipher)) == cipher_name(cipher),
        !cipher_name(cipher).contains(':'),
{
    reveal_strlit("NONE");
    reveal_strlit("AES128");
    reveal_strlit("AES192");
    reveal_strlit("AES256");
    reveal_strlit("CHACHA8");
    reveal_strlit("CHACHA20");
    let name = cipher_name(cipher);
    assert forall|i: int| 0 <= i < name.len() implies (#[trigger] name[i]) as u32 <= 127
        && ascii_upper(name[i]) == name[i] && name[i] != ':' by {}
    assert(name.map_values(|c: char| ascii_upper(c)) =~= name);
}

proof fn lemma_fields(cipher: Cipher, key: Seq<char>, iv: Seq<char>)
    requires
        !key.contains(':'),
        !iv.contains(':'),
    ensures
        crypto_fields(cipher_name(cipher) + seq![':'] + (key + seq![':'] + iv)) == (CryptoFields {
            cipher: Some(cipher),
            key: Some(base64_decoded(key)),
            iv: Some(base64_decoded(iv)),
        }),
{
    lemma_name(cipher);
    law_cipher_names(cipher, cipher_name(cipher));
    lemma_first_field(cipher_name(cipher), ':', key + seq![':'] + iv);
    lemma_first_field(key, ':', iv);
    lemma_first_field(iv, ':', Seq::empty());
}

/// Settings that fit their cipher are read as they were written: whatever the fields of their
/// text are read as, it is these settings and no others.
pub proof fn law_crypto_text(crypto: CryptoView, fields: CryptoFields, read: CryptoView)
    requires
        cipher_of_number(crypto.cipher) is Some,
        crypto.key.len() == key_len(cipher_of_number(crypto.cipher)->0),
        crypto.iv.len() == iv_len(cipher_of_number(crypto.cipher)->0),
        fields == (CryptoFields {
            cipher: cipher_of_number(crypto.cipher),
            key: Some(Ok(crypto.key)),
            iv: Some(Ok(crypto.iv)),
        }),
    ensures
        crypto_fault(fields) is None,
        crypto_matches(fields, read) <==> read == crypto,
{
    law_cipher_numbers(cipher_of_number(crypto.cipher)->0, crypto.cipher);
}

/// Fields are in order exactly where the cipher is known and what is given of key and vector is
/// base64 of the right length; else the first fault is told.
pub proof fn law_crypto_fault(fields: CryptoFields)
    ensures
        fields.cipher is None ==> crypto_fault(fields) == Some(ErrorKind::InvalidCipher),
        fields.cipher matches Some(cipher) ==> {
            let key_fits = fields.key is None || (fields.key matches Some(Ok(key)) && key.len()
                == key_len(cipher));
            let iv_fits = fields.iv is None || (fields.iv matches Some(Ok(iv)) && iv.len()
                == iv_len(cipher));
            &&& crypto_fault(fields) is None <==> key_fits && iv_fits
            &&& fields.key matches Some(Err(error)) ==> crypto_fault(fields) == Some(
                ErrorKind::Decode(error),
            )
            &&& !(fields.key matches Some(Err(_))) ==> (fields.iv matches Some(Err(error))
                ==> crypto_fault(fields) == Some(ErrorKind::Decode(error)))
            &&& !(fields.key matches Some(Err(_))) && !(fields.iv matches Some(Err(_)))
                && !key_fits ==> crypto_fault(fields) == Some(ErrorKind::InvalidKey)
            &&& key_fits && !iv_fits && !(fields.iv matches Some(Err(_))) ==> crypto_fault(fields)
                == Some(ErrorKind::InvalidIv)
        },
{
}

/// Whatever settings are read, they fit their cipher, so that a cipher can be made of them.
pub proof fn law_read_settings(
    cipher: Option<Cipher>,
    key: Option<Result<Vec<u8>, DecodeError>>,
    iv: Option<Result<Vec<u8>, DecodeError>>,
    result: Result<Crypto, Error>,
)
    requires
        call_ensures(Crypto::from_fields, (cipher, key, iv), result),
    ensures
        result matches Ok(crypto) ==> {
            &&& cipher matches Some(cipher) && {
                &&& crypto.cipher == cipher_number(cipher)
                &&& crypto.key@.len() == key_len(cipher)
                &&& crypto.iv@.len() == iv_len(cipher)
            }
            &&& crypto_ready(crypto@)
            &&& key matches Some(Ok(bytes)) ==> crypto.key@ == bytes@
            &&& iv matches Some(Ok(bytes)) ==> crypto.iv@ == bytes@
        },
        cipher is Some && key is None && iv is None ==> result is Ok,
        cipher is None ==> (result matches Err(error) && error.kind == ErrorKind::InvalidCipher),
        cipher matches Some(known) ==> (key matches Some(Ok(k)) ==> (iv matches Some(Ok(v)) ==> (
        result is Ok <==> k@.len() == key_len(known) && v@.len() == iv_len(known)))),
{
    if let Some(known) = cipher {
        law_cipher_numbers(known, cipher_number(known));
    }
}

/// A text has its fields between the colons: the name, the key and the vector, of which the last
/// ones may be missing; what stands behind them is not looked at.
pub proof fn law_fields(name: Seq<char>, key: Seq<char>, iv: Seq<char>, more: Seq<char>)
    requires
        !name.contains(':'),
        !key.contains(':'),
        !iv.contains(':'),
    ensures
        crypto_fields(name) == (CryptoFields {
            cipher: cipher_of_name(upper(name)),
            key: None,
            iv: None,
        }),
        crypto_fields(name + seq![':'] + key) == (CryptoFields {
            cipher: cipher_of_name(upper(name)),
            key: Some(base64_decoded(key)),
            iv: None,
        }),
        crypto_fields(name + seq![':'] + (key + seq![':'] + iv)) == (CryptoFields {
            cipher: cipher_of_name(upper(name)),
            key: Some(base64_decoded(key)),
            iv: Some(base64_decoded(iv)),
        }),
        crypto_fields(name + seq![':'] + (key + seq![':'] + (iv + seq![':'] + more)))
            == crypto_fields(name + seq![':'] + (key + seq![':'] + iv)),
{
    lemma_first_field(name, ':', key);
    lemma_first_field(name, ':', key + seq![':'] + iv);
    lemma_first_field(name, ':', key + seq![':'] + (iv + seq![':'] + more));
    lemma_first_field(key, ':', iv);
    lemma_first_field(key, ':', iv + seq![':'] + more);
    lemma_first_field(iv, ':', more);
}

/// Of an ASCII text, the letters from `a` to `z` become capital letters, and nothing else changes.
pub proof fn law_upper(text: Seq<char>, i: int)
    requires
        is_ascii_text(text),
        0 <= i < text.len(),
    ensures
        upper(text).len() == text.len(),
        'a' <= text[i] <= 'z' ==> upper(text)[i] as u32 + 32 == text[i] as u32,
        !('a' <= text[i] <= 'z') ==> upper(text)[i] == text[i],
{
    let c = text[i];
    if 'a' <= c <= 'z' {
        assert(((c as u32) - 32) as char as u32 == (c as u32) - 32);
    }
}

/// The text of settings is the name of the cipher, the key and the vector, with colons between
/// them.
pub proof fn law_settings_text(crypto: Crypto, text: Option<String>)
    requires
        crypto.key@.len() <= usize::MAX / 2,
        crypto.iv@.len() <= usize::MAX / 2,
        call_ensures(Crypto::text, (&crypto,), text),
    ensures
        text is Some <==> cipher_of_number(crypto.cipher) is Some,
        text matches Some(text) ==> {
            let fields = crypto_fields(text@);
            &&& fields.cipher == cipher_of_number(crypto.cipher)
            &&& fields.key == Some(Ok::<Seq<u8>, DecodeError>(crypto.key@))
            &&& fields.iv == Some(Ok::<Seq<u8>, DecodeError>(crypto.iv@))
            &&& first_field(text@, ':') == cipher_name(fields.cipher->0)
        },
{
    if let Some(text) = text {
        let cipher = cipher_of_number(crypto.cipher)->0;
        let name = cipher_name(cipher);
        lemma_name(cipher);
        reveal_strlit(":");
        assert(":"@ =~= seq![':']);
        let rest = base64_encoded(crypto.key@) + seq![':'] + base64_encoded(crypto.iv@);
        assert(text@ =~= name + seq![':'] + rest);
        lemma_first_field(name, ':', rest);
    }
}

} // verus!
