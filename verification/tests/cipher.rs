use cccp::cipher::CipherStream;
use cccp::error::ErrorKind;
use cccp::items::{Cipher, Crypto};

fn hex(text: &str) -> Vec<u8> {
    let digits: Vec<u8> = text
        .bytes()
        .map(|c| (c as char).to_digit(16).unwrap() as u8)
        .collect();
    digits.chunks(2).map(|pair| pair[0] * 16 + pair[1]).collect()
}

fn crypto(cipher: Cipher, key: Vec<u8>, iv: Vec<u8>) -> Crypto {
    Crypto {
        cipher: cipher.number(),
        key,
        iv,
    }
}

fn counter() -> Vec<u8> {
    hex("f0f1f2f3f4f5f6f7f8f9fafbfcfdfeff")
}

fn plain() -> Vec<u8> {
    hex("6bc1bee22e409f96e93d7e117393172aae2d8a571e03ac9c9eb76fac45af8e51")
}

#[test]
fn aes128_vector() {
    let settings = crypto(
        Cipher::Aes128,
        hex("2b7e151628aed2a6abf7158809cf4f3c"),
        counter(),
    );
    let mut cipher = settings.make_cipher().unwrap();
    let mut data = plain();
    cipher.apply_keystream(&mut data);
    assert_eq!(
        data,
        hex("874d6191b620e3261bef6864990db6ce9806f66b7970fdff8617187bb9fffdff")
    );
}

#[test]
fn aes192_vector() {
    let settings = crypto(
        Cipher::Aes192,
        hex("8e73b0f7da0e6452c810f32b809079e562f8ead2522c6b7b"),
        counter(),
    );
    let mut cipher = settings.make_cipher().unwrap();
    let mut data = plain();
    data.truncate(16);
    cipher.apply_keystream(&mut data);
    assert_eq!(data, hex("1abc932417521ca24f2b0459fe7e6e0b"));
}

#[test]
fn aes256_vector() {
    let settings = crypto(
        Cipher::Aes256,
        hex("603deb1015ca71be2b73aef0857d77811f352c073b6108d72d9810a30914dff4"),
        counter(),
    );
    let mut cipher = settings.make_cipher().unwrap();
    let mut data = plain();
    data.truncate(16);
    cipher.apply_keystream(&mut data);
    assert_eq!(data, hex("601ec313775789a5b7a7f504bbf3d228"));
}

#[test]
fn chacha20_vector() {
    let settings = crypto(Cipher::Chacha20, vec![0; 32], vec![0; 12]);
    let mut cipher = settings.make_cipher().unwrap();
    let mut data = vec![0; 16];
    cipher.apply_keystream(&mut data);
    assert_eq!(data, hex("76b8e0ada0f13d90405d6ae55386bd28"));
}

#[test]
fn chacha8_vector() {
    let settings = crypto(Cipher::Chacha8, vec![0; 32], vec![0; 12]);
    let mut cipher = settings.make_cipher().unwrap();
    let mut data = vec![0; 16];
    cipher.apply_keystream(&mut data);
    assert_eq!(data, hex("3e00ef2f895f40d67f5bb8e81f09a5a1"));
}

#[test]
fn no_cipher_changes_nothing() {
    let mut cipher = Crypto::default().make_cipher().unwrap();
    let mut data = vec![1, 2, 3];
    cipher.seek(99);
    cipher.apply_keystream(&mut data);
    assert_eq!(data, vec![1, 2, 3]);
}

#[test]
fn applying_twice_gives_back() {
    for cipher in [
        Cipher::NoCipher,
        Cipher::Aes128,
        Cipher::Aes192,
        Cipher::Aes256,
        Cipher::Chacha8,
        Cipher::Chacha20,
    ] {
        let settings = crypto(
            cipher,
            vec![7; cipher.key_length()],
            vec![9; cipher.iv_length()],
        );
        let mut first = settings.make_cipher().unwrap();
        let mut second = settings.make_cipher().unwrap();
        let original: Vec<u8> = (0..200).collect();
        let mut data = original.clone();
        first.apply_keystream(&mut data);
        if cipher != Cipher::NoCipher {
            assert_ne!(data, original);
        }
        second.apply_keystream(&mut data);
        assert_eq!(data, original);
    }
}

#[test]
fn pieces_make_no_difference() {
    let settings = crypto(Cipher::Chacha20, vec![3; 32], vec![4; 12]);
    let mut whole = settings.make_cipher().unwrap();
    let mut pieces = settings.make_cipher().unwrap();
    let mut data: Vec<u8> = (0..150).collect();
    let mut start = data[..70].to_vec();
    let mut end = data[70..].to_vec();
    whole.apply_keystream(&mut data);
    pieces.apply_keystream(&mut start);
    pieces.apply_keystream(&mut end);
    start.append(&mut end);
    assert_eq!(start, data);
}

#[test]
fn seeking_moves_to_a_position() {
    let settings = crypto(Cipher::Aes256, vec![3; 32], vec![4; 16]);
    let mut whole = settings.make_cipher().unwrap();
    let mut later = settings.make_cipher().unwrap();
    let mut data = vec![0; 100];
    let mut tail = vec![0; 33];
    whole.apply_keystream(&mut data);
    later.seek(67);
    later.apply_keystream(&mut tail);
    assert_eq!(tail, data[67..].to_vec());
}

#[test]
fn keystream_ends() {
    assert_eq!(Cipher::Chacha20.keystream_end(), 274_877_906_880);
    assert_eq!(Cipher::Aes128.keystream_end(), u64::MAX);
    let settings = crypto(Cipher::Chacha8, vec![0; 32], vec![0; 12]);
    let mut cipher = settings.make_cipher().unwrap();
    assert!(cipher.has_keystream(1024));
    cipher.seek(274_877_906_870);
    assert!(cipher.has_keystream(10));
    assert!(!cipher.has_keystream(11));
    let mut data = vec![0; 10];
    cipher.apply_keystream(&mut data);
    assert!(!cipher.has_keystream(1));
}

#[test]
fn unknown_cipher_number() {
    let settings = Crypto {
        cipher: 6,
        key: Vec::new(),
        iv: Vec::new(),
    };
    let error = settings.make_cipher().unwrap_err();
    match &error.kind {
        ErrorKind::Decode(text) => assert_eq!(
            text,
            "failed to decode Protobuf message: invalid enumeration value"
        ),
        other => panic!("{:?}", other),
    }
    assert!(CipherStream::new(&settings).is_err());
}

#[test]
fn following_iv_is_derived() {
    let start = crypto(Cipher::Aes256, vec![1; 32], (0..16).collect());
    let mut first = start.clone();
    let mut second = start.clone();
    first.next_iv();
    second.next_iv();
    assert_eq!(first.iv, second.iv);
    assert_eq!(first.iv.len(), 16);
    assert_ne!(first.iv, start.iv);
    assert_eq!(first.key, start.key);
    assert_eq!(first.cipher, start.cipher);
    let once = first.iv.clone();
    first.next_iv();
    assert_ne!(first.iv, once);
    // only the first eight bytes are the seed
    let mut other = crypto(Cipher::Aes256, vec![1; 32], (0..16).collect());
    other.iv[15] = 200;
    other.next_iv();
    assert_eq!(other.iv, once);
}

#[test]
fn no_cipher_keeps_its_iv() {
    let mut settings = Crypto {
        cipher: 0,
        key: Vec::new(),
        iv: vec![1, 2],
    };
    settings.next_iv();
    assert_eq!(settings.iv, vec![1, 2]);
    settings.random_iv();
    assert_eq!(settings.iv, vec![1, 2]);
}

#[test]
fn given_iv_is_taken() {
    let mut settings = crypto(Cipher::Aes128, vec![1; 16], vec![0; 16]);
    settings.set_iv((0..16).collect());
    assert_eq!(settings.iv, (0..16).collect::<Vec<u8>>());
    assert_eq!(settings.key, vec![1; 16]);
    assert_eq!(settings.cipher, Cipher::Aes128.number());
}

#[test]
fn random_iv_changes() {
    let mut settings = crypto(Cipher::Aes128, vec![1; 16], vec![0; 16]);
    settings.random_iv();
    assert_eq!(settings.iv.len(), 16);
    assert_ne!(settings.iv, vec![0; 16]);
    assert_eq!(settings.key, vec![1; 16]);
}

#[test]
fn frames_are_read_as_written() {
    let settings = crypto(Cipher::Aes256, vec![5; 32], vec![6; 16]);
    let mut writer = CipherStream::new(&settings).unwrap();
    let mut reader = CipherStream::new(&settings).unwrap();
    for message in [b"first".to_vec(), Vec::new(), vec![0; 300]] {
        let frame = writer.write_message(&message);
        assert_eq!(frame.len(), message.len() + 4);
        let len = reader.read_u32(frame[..4].to_vec());
        assert_eq!(len as usize, message.len());
        let mut body = frame[4..].to_vec();
        reader.read_exact(&mut body);
        assert_eq!(body, message);
    }
}

#[test]
fn frame_without_cipher() {
    let mut stream = CipherStream::new(&Crypto::default()).unwrap();
    assert_eq!(stream.write_message(&vec![9, 8]), vec![0, 0, 0, 2, 9, 8]);
}
