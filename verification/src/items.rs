//! The values that two peers exchange: the manifest of a transfer, the control messages, and
//! the cipher settings.

use std::collections::HashMap;
use vstd::prelude::*;

verus! {

/// The stream ciphers that a transfer can use.
#[derive(Clone, Copy, Debug, PartialEq, Eq, Structural)]
pub enum Cipher {
    NoCipher,
    Aes128,
    Aes192,
    Aes256,
    Chacha8,
    Chacha20,
}

/// The number that stands for a cipher on the wire.
pub open spec fn cipher_number(cipher: Cipher) -> i32 {
    match cipher {
        Cipher::NoCipher => 0,
        Cipher::Aes128 => 1,
        Cipher::Aes192 => 2,
        Cipher::Aes256 => 3,
        Cipher::Chacha8 => 4,
        Cipher::Chacha20 => 5,
    }
}

/// The cipher that a number on the wire stands for, if any.
pub open spec fn cipher_of_number(number: i32) -> Option<Cipher> {
    if number == 0 {
        Some(Cipher::NoCipher)
    } else if number == 1 {
        Some(Cipher::Aes128)
    } else if number == 2 {
        Some(Cipher::Aes192)
    } else if number == 3 {
        Some(Cipher::Aes256)
    } else if number == 4 {
        Some(Cipher::Chacha8)
    } else if number == 5 {
        Some(Cipher::Chacha20)
    } else {
        None
    }
}

/// The name of a cipher.
pub open spec fn cipher_name(cipher: Cipher) -> Seq<char> {
    match cipher {
        Cipher::NoCipher => "NONE"@,
        Cipher::Aes128 => "AES128"@,
        Cipher::Aes192 => "AES192"@,
        Cipher::Aes256 => "AES256"@,
        Cipher::Chacha8 => "CHACHA8"@,
        Cipher::Chacha20 => "CHACHA20"@,
    }
}

/// The length of a cipher's key in bytes.
pub open spec fn key_len(cipher: Cipher) -> nat {
    match cipher {
        Cipher::NoCipher => 0,
        Cipher::Aes128 => 16,
        Cipher::Aes192 => 24,
        Cipher::Aes256 | Cipher::Chacha8 | Cipher::Chacha20 => 32,
    }
}

/// The length of a cipher's initialisation vector in bytes.
pub open spec fn iv_len(cipher: Cipher) -> nat {
    match cipher {
        Cipher::NoCipher => 0,
        Cipher::Chacha8 | Cipher::Chacha20 => 12,
        Cipher::Aes128 | Cipher::Aes192 | Cipher::Aes256 => 16,
    }
}

impl Cipher {
    /// the length of the key in bytes
    pub fn key_length(&self) -> (length: usize)
        ensures
            length == key_len(*self),
    {
        match self {
            Cipher::NoCipher => 0,
            Cipher::Aes128 => 16,
            Cipher::Aes192 => 24,
            Cipher::Chacha20 | Cipher::Chacha8 | Cipher::Aes256 => 32,
        }
    }

    /// the length of the iv in bytes
    pub fn iv_length(&self) -> (length: usize)
        ensures
            length == iv_len(*self),
    {
        match self {
            Cipher::NoCipher => 0,
            Cipher::Chacha20 | Cipher::Chacha8 => 12,
            Cipher::Aes256 | Cipher::Aes128 | Cipher::Aes192 => 16,
        }
    }

    /// The number that stands for the cipher on the wire.
    pub fn number(&self) -> (number: i32)
        ensures
            number == cipher_number(*self),
    {
        match self {
            Cipher::NoCipher => 0,
            Cipher::Aes128 => 1,
            Cipher::Aes192 => 2,
            Cipher::Aes256 => 3,
            Cipher::Chacha8 => 4,
            Cipher::Chacha20 => 5,
        }
    }

    /// The cipher that a number on the wire stands for.
    pub fn from_number(number: i32) -> (cipher: Option<Cipher>)
        ensures
            cipher == cipher_of_number(number),
    {
        if number == 0 {
            Some(Cipher::NoCipher)
        } else if number == 1 {
            Some(Cipher::Aes128)
        } else if number == 2 {
            Some(Cipher::Aes192)
        } else if number == 3 {
            Some(Cipher::Aes256)
        } else if number == 4 {
            Some(Cipher::Chacha8)
        } else if number == 5 {
            Some(Cipher::Chacha20)
        } else {
            None
        }
    }

    /// The name of the cipher, as it is written in commands and understood by
    /// [`Cipher::from_str_name`].
    pub fn name(&self) -> (name: &'static str)
        ensures
            name@ == cipher_name(*self),
    {
        match self {
            Cipher::NoCipher => "NONE",
            Cipher::Aes128 => "AES128",
            Cipher::Aes192 => "AES192",
            Cipher::Aes256 => "AES256",
            Cipher::Chacha8 => "CHACHA8",
            Cipher::Chacha20 => "CHACHA20",
        }
    }

    /// The cipher of the given name.
    pub fn from_str_name(name: &str) -> (cipher: Option<Cipher>)
        ensures
            cipher == cipher_of_name(name@),
    {
        if crate::text::same_text(name, "NONE") {
            Some(Cipher::NoCipher)
        } else if crate::text::same_text(name, "AES128") {
            Some(Cipher::Aes128)
        } else if crate::text::same_text(name, "AES192") {
            Some(Cipher::Aes192)
        } else if crate::text::same_text(name, "AES256") {
            Some(Cipher::Aes256)
        } else if crate::text::same_text(name, "CHACHA8") {
            Some(Cipher::Chacha8)
        } else if crate::text::same_text(name, "CHACHA20") {
            Some(Cipher::Chacha20)
        } else {
            None
        }
    }
}

/// The cipher that has the given name, if any.
pub open spec fn cipher_of_name(name: Seq<char>) -> Option<Cipher> {
    if name == "NONE"@ {
        Some(Cipher::NoCipher)
    } else if name == "AES128"@ {
        Some(Cipher::Aes128)
    } else if name == "AES192"@ {
        Some(Cipher::Aes192)
    } else if name == "AES256"@ {
        Some(Cipher::Aes256)
    } else if name == "CHACHA8"@ {
        Some(Cipher::Chacha8)
    } else if name == "CHACHA20"@ {
        Some(Cipher::Chacha20)
    } else {
        None
    }
}

/// A cipher is found again by its number, and no other number stands for it.
pub proof fn law_cipher_numbers(cipher: Cipher, number: i32)
    ensures
        cipher_of_number(number) == Some(cipher) <==> number == cipher_number(cipher),
{
}

/// A cipher is found again by its name, and no other name stands for it.
pub proof fn law_cipher_names(cipher: Cipher, name: Seq<char>)
    ensures
        cipher_of_name(name) == Some(cipher) <==> name == cipher_name(cipher),
{
    reveal_strlit("NONE");
    reveal_strlit("AES128");
    reveal_strlit("AES192");
    reveal_strlit("AES256");
    reveal_strlit("CHACHA8");
    reveal_strlit("CHACHA20");
    assert("AES128"@[3] == '1' && "AES192"@[4] == '9' && "AES128"@[4] == '2' && "AES256"@[3]
        == '2' && "AES192"@[3] == '1');
    assert("NONE"@.len() == 4 && "CHACHA8"@.len() == 7 && "CHACHA20"@.len() == 8 && "AES128"@.len()
        == 6 && "AES192"@.len() == 6 && "AES256"@.len() == 6);
}

/// Cipher settings: which cipher, with which key and initialisation vector.
#[derive(Debug)]
pub struct Crypto {
    pub cipher: i32,
    pub key: Vec<u8>,
    pub iv: Vec<u8>,
}

/// What [`Crypto`] holds.
pub struct CryptoView {
    pub cipher: i32,
    pub key: Seq<u8>,
    pub iv: Seq<u8>,
}

impl View for Crypto {
    type V = CryptoView;

    open spec fn view(&self) -> CryptoView {
        CryptoView { cipher: self.cipher, key: self.key@, iv: self.iv@ }
    }
}

impl Clone for Crypto {
    fn clone(&self) -> (copy: Self)
        ensures
            copy@ == self@,
    {
        let copy = Crypto { cipher: self.cipher, key: self.key.clone(), iv: self.iv.clone() };
        assert(copy.key@ =~= self.key@);
        assert(copy.iv@ =~= self.iv@);
        copy
    }
}

impl Default for Crypto {
    /// No cipher at all.
    fn default() -> (crypto: Self)
        ensures
            crypto@ == (CryptoView { cipher: 0, key: Seq::empty(), iv: Seq::empty() }),
    {
        Crypto { cipher: 0, key: Vec::new(), iv: Vec::new() }
    }
}

/// What the sender tells of a file.
#[derive(Debug)]
pub struct FileDetail {
    /// the path below the destination
    pub path: String,
    /// the size in bytes
    pub size: u64,
    /// the BLAKE3 hash of the content, or nothing where it is not to be verified
    pub signature: Vec<u8>,
    /// how the content is encrypted on its way
    pub crypto: Option<Crypto>,
}

/// What [`FileDetail`] holds.
pub struct FileDetailView {
    pub path: Seq<char>,
    pub size: u64,
    pub signature: Seq<u8>,
    pub crypto: Option<CryptoView>,
}

impl View for FileDetail {
    type V = FileDetailView;

    open spec fn view(&self) -> FileDetailView {
        FileDetailView {
            path: self.path@,
            size: self.size,
            signature: self.signature@,
            crypto: match self.crypto {
                Some(crypto) => Some(crypto@),
                None => None,
            },
        }
    }
}

impl Clone for FileDetail {
    fn clone(&self) -> (copy: Self)
        ensures
            copy@ == self@,
    {
        let signature = self.signature.clone();
        assert(signature@ =~= self.signature@);
        let crypto = match &self.crypto {
            Some(crypto) => Some(crypto.clone()),
            None => None,
        };
        FileDetail { path: self.path.clone(), size: self.size, signature, crypto }
    }
}

/// The directories and files of a transfer.
#[derive(Debug)]
pub struct Manifest {
    pub directories: Vec<String>,
    pub files: HashMap<u32, FileDetail>,
}

impl Manifest {
    /// Whether there is nothing to transfer.
    pub fn is_empty(&self) -> (empty: bool)
        ensures
            empty == (self.files@.dom() == Set::<u32>::empty() && self.directories@.len() == 0),
    {
        let empty = self.files.is_empty() && self.directories.is_empty();
        proof {
            assert(self.files@.is_empty() <==> self.files@.dom() =~= Set::<u32>::empty());
        }
        empty
    }
}

/// Where in a file the receiver wants the transfer to start.
#[derive(Clone, Copy, Debug, PartialEq, Eq, Structural)]
pub struct StartIndex {
    pub index: u64,
}

impl StartIndex {
    pub fn new(index: u64) -> (start: Self)
        ensures
            start.index == index,
    {
        StartIndex { index }
    }
}

/// The indexes of chunks of one file that have arrived.
#[derive(Debug)]
pub struct ConfirmationIndexes {
    pub inner: Vec<u64>,
}

/// The counters that a remote peer reports.
#[derive(Clone, Copy, Debug, PartialEq, Eq, Structural)]
pub struct Stats {
    pub confirmed_packets: u64,
    pub sent_packets: u64,
    pub total_data: u64,
}

/// What a control message says.
#[derive(Debug)]
pub enum Body {
    /// what is about to be sent
    Manifest(Manifest),
    /// the sender starts with a file
    Start { id: u32 },
    /// chunks that have arrived, by file
    Confirmations { indexes: HashMap<u32, ConfirmationIndexes> },
    /// files that need not be sent
    Completed { ids: Vec<u32> },
    /// a file has arrived as a whole
    End { id: u32 },
    /// something went wrong with a file
    Failure { id: u32, reason: u32, description: Option<String> },
    /// the sender has nothing more to send
    Done { reason: u32 },
}

/// A control message; one that a peer cannot read has no body.
#[derive(Debug)]
pub struct Message {
    pub message: Option<Body>,
}

impl Message {
    pub fn manifest(manifest: &Manifest) -> (message: Self)
        ensures
            message.message matches Some(Body::Manifest(copy)) && copy.files@ == manifest.files@
                && copy.directories@ == manifest.directories@,
    {
        let directories = manifest.directories.clone();
        assert(directories@ =~= manifest.directories@);
        let copy = Manifest { directories, files: manifest.files.clone() };
        Message { message: Some(Body::Manifest(copy)) }
    }

    pub fn start(id: u32) -> (message: Self)
        ensures
            message.message == Some(Body::Start { id }),
    {
        Message { message: Some(Body::Start { id }) }
    }

    pub fn confirmations(indexes: HashMap<u32, ConfirmationIndexes>) -> (message: Self)
        ensures
            message.message == Some(Body::Confirmations { indexes }),
    {
        Message { message: Some(Body::Confirmations { indexes }) }
    }

    pub fn completed(ids: Vec<u32>) -> (message: Self)
        ensures
            message.message == Some(Body::Completed { ids }),
    {
        Message { message: Some(Body::Completed { ids }) }
    }

    pub fn end(id: u32) -> (message: Self)
        ensures
            message.message == Some(Body::End { id }),
    {
        Message { message: Some(Body::End { id }) }
    }

    pub fn failure(id: u32, reason: u32, description: Option<String>) -> (message: Self)
        ensures
            message.message == Some(Body::Failure { id, reason, description }),
    {
        Message { message: Some(Body::Failure { id, reason, description }) }
    }

    pub fn done(reason: u32) -> (message: Self)
        ensures
            message.message == Some(Body::Done { reason }),
    {
        Message { message: Some(Body::Done { reason }) }
    }
}

/// The key of AES has the bits in its name, and its vector those of a block; ChaCha has a key of 256
/// bits and a nonce of 96. Where there is no cipher, there is nothing to know.
pub proof fn law_cipher_lengths(cipher: Cipher, key: usize, iv: usize)
    requires
        call_ensures(Cipher::key_length, (&cipher,), key),
        call_ensures(Cipher::iv_length, (&cipher,), iv),
    ensures
        cipher == Cipher::NoCipher <==> key == 0,
        cipher == Cipher::NoCipher <==> iv == 0,
        cipher == Cipher::Aes128 ==> 8 * key == 128 && 8 * iv == 128,
        cipher == Cipher::Aes192 ==> 8 * key == 192 && 8 * iv == 128,
        cipher == Cipher::Aes256 ==> 8 * key == 256 && 8 * iv == 128,
        cipher == Cipher::Chacha8 || cipher == Cipher::Chacha20 ==> 8 * key == 256 && 8 * iv == 96,
        key == key_len(cipher),
        iv == iv_len(cipher),
{
}

/// A number stands for a cipher exactly where it is one of the first six; that of no cipher is
/// zero.
pub proof fn law_known_numbers(number: i32, cipher: Option<Cipher>)
    requires
        call_ensures(Cipher::from_number, (number,), cipher),
    ensures
        cipher is Some <==> 0 <= number < 6,
        cipher == Some(Cipher::NoCipher) <==> number == 0,
{
}

/// A cipher that is written by its number or by its name is found again.
pub proof fn law_cipher_found(
    cipher: Cipher,
    number: i32,
    found: Option<Cipher>,
    name: &'static str,
    named: Option<Cipher>,
)
    requires
        call_ensures(Cipher::number, (&cipher,), number),
        call_ensures(Cipher::from_number, (number,), found),
        call_ensures(Cipher::name, (&cipher,), name),
        call_ensures(Cipher::from_str_name, (name,), named),
    ensures
        found == Some(cipher),
        named == Some(cipher),
{
    law_cipher_numbers(cipher, number);
    law_cipher_names(cipher, name@);
}

/// A manifest is empty exactly where it has neither a file nor a directory.
pub proof fn law_empty_manifest(manifest: Manifest, empty: bool, id: u32)
    requires
        call_ensures(Manifest::is_empty, (&manifest,), empty),
    ensures
        manifest.files@.contains_key(id) ==> !empty,
        manifest.directories@.len() > 0 ==> !empty,
        (forall|other: u32| !#[trigger] manifest.files@.contains_key(other))
            && manifest.directories@.len() == 0 ==> empty,
{
    if manifest.files@.contains_key(id) {
        assert(manifest.files@.dom().contains(id));
    }
    if forall|other: u32| !#[trigger] manifest.files@.contains_key(other) {
        assert(manifest.files@.dom() =~= Set::<u32>::empty());
    }
}

/// Messages say what they are made to say.
pub proof fn law_messages(
    id: u32,
    reason: u32,
    description: Option<String>,
    end: Message,
    failure: Message,
    done: Message,
    start: Message,
    ids: Vec<u32>,
    completed: Message,
    indexes: HashMap<u32, ConfirmationIndexes>,
    confirmations: Message,
)
    requires
        call_ensures(Message::end, (id,), end),
        call_ensures(Message::failure, (id, reason, description), failure),
        call_ensures(Message::done, (reason,), done),
        call_ensures(Message::start, (id,), start),
        call_ensures(Message::completed, (ids,), completed),
        call_ensures(Message::confirmations, (indexes,), confirmations),
    ensures
        end.message == Some(Body::End { id }),
        failure.message == Some(Body::Failure { id, reason, description }),
        done.message == Some(Body::Done { reason }),
        start.message == Some(Body::Start { id }),
        completed.message == Some(Body::Completed { ids }),
        confirmations.message == Some(Body::Confirmations { indexes }),
{
}

} // verus!
