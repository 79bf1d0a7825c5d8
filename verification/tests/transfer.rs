use cccp::hash::FileHasher;
use cccp::items::{Body, Cipher, Crypto, FileDetail, StartIndex};
use cccp::packet::{
    split_datagram, Job, DATAGRAM_SIZE, ID_SIZE, INDEX_SIZE, PACKET_SIZE, READ_BUFFER_SIZE,
    TRANSFER_BUFFER_SIZE, WRITE_BUFFER_SIZE,
};
use cccp::receiver::files::FileDetails;
use cccp::receiver::writer::Writer;
use cccp::sender::controller::start_file_transfer;
use cccp::sender::reader::Reader;

fn settings(cipher: Cipher) -> Crypto {
    Crypto {
        cipher: cipher.number(),
        key: vec![11; cipher.key_length()],
        iv: vec![22; cipher.iv_length()],
    }
}

fn content(len: usize) -> Vec<u8> {
    (0..len).map(|i| (i * 7 + i / 256) as u8).collect()
}

fn detail(len: usize, cipher: Cipher) -> FileDetail {
    FileDetail {
        path: "file".to_string(),
        size: len as u64,
        signature: Vec::new(),
        crypto: Some(settings(cipher)),
    }
}

/// The datagrams of a file from an index on.
fn datagrams(content: &[u8], index: u64, id: u32, cipher: Cipher) -> Vec<Vec<u8>> {
    let detail = detail(content.len(), cipher);
    let mut reader = start_file_transfer(id, &detail, StartIndex::new(index)).unwrap();
    let mut datagrams = Vec::new();
    for chunk in content[index as usize..].chunks(TRANSFER_BUFFER_SIZE) {
        let job = reader.next_job(&chunk.to_vec()).unwrap();
        assert_eq!(job.data.len(), DATAGRAM_SIZE);
        assert_eq!(job.id, id);
        assert!(job.cached_at.is_none());
        datagrams.push(job.data);
    }
    assert!(reader.next_job(&Vec::new()).is_none());
    datagrams
}

fn writer(len: usize, partial: Option<u64>, cipher: Cipher) -> Writer {
    FileDetails::new(5, detail(len, cipher), partial)
        .writer()
        .unwrap()
}

fn arrive(writer: &mut Writer, datagrams: &[Vec<u8>], order: &[usize]) -> Vec<u8> {
    let mut written = Vec::new();
    for i in order {
        if writer.is_complete() {
            break;
        }
        let (id, job) = split_datagram(&datagrams[*i]);
        assert_eq!(id, 5);
        written.append(&mut writer.receive(job).output);
    }
    written
}

#[test]
fn file_arrives_in_order() {
    for cipher in [Cipher::NoCipher, Cipher::Aes128, Cipher::Chacha20] {
        let file = content(3000);
        let sent = datagrams(&file, 0, 5, cipher);
        assert_eq!(sent.len(), 3);
        let mut writer = writer(3000, None, cipher);
        let written = arrive(&mut writer, &sent, &[0, 1, 2]);
        assert!(writer.is_complete());
        assert_eq!(writer.position(), 3000);
        assert_eq!(written, file);
    }
}

#[test]
fn file_arrives_in_any_order_with_duplicates() {
    for cipher in [Cipher::Aes256, Cipher::Chacha8, Cipher::NoCipher] {
        let file = content(5 * 1024 + 1);
        let sent = datagrams(&file, 0, 5, cipher);
        assert_eq!(sent.len(), 6);
        for order in [
            [5, 4, 3, 2, 1, 0, 0, 0],
            [1, 1, 3, 3, 0, 2, 5, 4],
            [0, 0, 2, 1, 5, 3, 2, 4],
        ] {
            let mut writer = writer(file.len(), None, cipher);
            let written = arrive(&mut writer, &sent, &order);
            assert!(writer.is_complete());
            assert_eq!(written, file);
        }
    }
}

#[test]
fn interrupted_transfer_goes_on() {
    let file = content(4000);
    // 2500 bytes are there: two chunks count
    let details = FileDetails::new(5, detail(4000, Cipher::Aes192), Some(2500));
    assert_eq!(details.start_index, 2048);
    assert_eq!(details.remaining(), 1952);
    let sent = datagrams(&file, 2048, 5, Cipher::Aes192);
    assert_eq!(sent.len(), 2);
    let mut writer = details.writer().unwrap();
    let written = arrive(&mut writer, &sent, &[1, 0]);
    assert!(writer.is_complete());
    let mut whole = file[..2048].to_vec();
    whole.extend(written);
    assert_eq!(whole, file);
}

#[test]
fn confirmations_of_a_writer() {
    let file = content(2048);
    let sent = datagrams(&file, 0, 5, Cipher::NoCipher);
    let mut writer = writer(2048, None, Cipher::NoCipher);
    let chunk = |i: usize| split_datagram(&sent[i]).1;
    // ahead: confirmed and kept
    let step = writer.receive(chunk(1));
    assert!(step.confirm);
    assert!(step.output.is_empty());
    assert_eq!(writer.position(), 0);
    // in place: confirmed and written, with what waits
    let step = writer.receive(chunk(0));
    assert!(step.confirm);
    assert_eq!(step.output, file);
    assert!(writer.is_complete());
    // behind: neither
    let step = writer.receive(chunk(0));
    assert!(!step.confirm);
    assert!(step.output.is_empty());
}

#[test]
fn written_chunks_are_confirmed() {
    let file = content(6000);
    let sent = datagrams(&file, 2048, 5, Cipher::Aes128);
    for order in [[0, 1, 2, 3, 3], [3, 2, 1, 0, 0], [1, 1, 3, 0, 2]] {
        let mut writer = writer(6000, Some(2048), Cipher::Aes128);
        let mut confirmed = Vec::new();
        for i in order {
            if writer.is_complete() {
                break;
            }
            let (_, job) = split_datagram(&sent[i]);
            let index = job.index;
            if writer.receive(job).confirm {
                confirmed.push(index);
            }
            for index in (2048..writer.position()).step_by(1024) {
                assert!(confirmed.contains(&index));
            }
        }
        assert!(writer.is_complete());
        for index in [2048, 3072, 4096, 5120] {
            assert!(confirmed.contains(&index));
        }
    }
}

#[test]
fn empty_file_is_complete() {
    let writer = writer(0, None, Cipher::Chacha20);
    assert!(writer.is_complete());
    assert!(datagrams(&[], 0, 5, Cipher::Chacha20).is_empty());
}

#[test]
fn datagram_layout() {
    let cipher = Crypto::default().make_cipher().unwrap();
    let mut reader = Reader::new(256, 0x0102_0304, cipher);
    let job = reader.next_job(&vec![9; 1024]).unwrap();
    assert_eq!(&job.data[..4], &[1, 2, 3, 4]);
    assert_eq!(&job.data[4..12], &[0, 0, 0, 0, 0, 0, 1, 0]);
    assert_eq!(&job.data[12..], &[9; 1024][..]);
    assert_eq!(job.index, 256);
    // a shorter chunk leaves the end of the one before it in place
    let job = reader.next_job(&vec![7; 10]).unwrap();
    assert_eq!(job.index, 1280);
    assert_eq!(&job.data[12..22], &[7; 10]);
    assert_eq!(&job.data[22..], &[9; 1014][..]);
    let (id, chunk): (u32, Job) = split_datagram(&job.data);
    assert_eq!(id, 0x0102_0304);
    assert_eq!(chunk.index, 1280);
    assert_eq!(chunk.data.len(), 1024);
}

#[test]
fn unknown_cipher_starts_no_transfer() {
    let mut unknown = detail(10, Cipher::NoCipher);
    unknown.crypto = Some(Crypto {
        cipher: 99,
        key: Vec::new(),
        iv: Vec::new(),
    });
    assert!(start_file_transfer(0, &unknown, StartIndex::new(0)).is_err());
    assert!(FileDetails::new(0, unknown, None).writer().is_err());
}

#[test]
fn sizes() {
    assert_eq!(DATAGRAM_SIZE, ID_SIZE + INDEX_SIZE + TRANSFER_BUFFER_SIZE);
    assert_eq!(PACKET_SIZE, DATAGRAM_SIZE + 8);
    assert_eq!(READ_BUFFER_SIZE, 100 * TRANSFER_BUFFER_SIZE);
    assert_eq!(WRITE_BUFFER_SIZE, 100 * TRANSFER_BUFFER_SIZE);
}

#[test]
fn file_that_arrived_passes_verification() {
    let hash = |content: &Vec<u8>| {
        let mut hasher = FileHasher::new();
        hasher.read(content);
        hasher.hash()
    };
    let file = content(2000);
    let mut signed = detail(2000, Cipher::Chacha8);
    signed.signature = hash(&file);
    let details = FileDetails::new(5, signed, None);
    let sent = datagrams(&file, 0, 5, Cipher::Chacha8);
    let mut writer = details.writer().unwrap();
    let mut written = arrive(&mut writer, &sent, &[1, 0]);
    assert!(matches!(
        details.finish(&Some(hash(&written))).unwrap().message,
        Some(Body::End { id: 5 })
    ));
    written[1999] ^= 1;
    assert!(details.finish(&Some(hash(&written))).is_err());
}
