use cccp::archive::check_oversized;
use cccp::error::{Error, ErrorKind};
use cccp::install::{
    agrees, archive_binary, binary_content, binary_name, binary_source, destination_step,
    entry_content, format_path, get_triple, identify_os, is_dir, is_dir_command, is_out_of_date,
    overwrite_step, select_asset, tag_version, unpack, version_result, BinarySource,
    DestinationStep, Os, OverwriteStep, OVERSIZED,
};
use async_compression::futures::bufread::GzipEncoder;
use futures::executor::block_on;
use futures::AsyncReadExt;

#[test]
fn operating_systems() {
    let os = |stdout: &str| identify_os(stdout.to_string(), "err".to_string());
    assert_eq!(
        os("Microsoft Windows [Version 10.0.19045]").unwrap(),
        Os::Windows
    );
    assert_eq!(os("Linux host 6.1").unwrap(), Os::UnixLike);
    assert_eq!(os("Darwin Kernel").unwrap(), Os::UnixLike);
    assert_eq!(os("FreeBSD 14").unwrap(), Os::UnixLike);
    match os("SunOS").unwrap_err().kind {
        ErrorKind::UnknownOs(stdout, stderr) => {
            assert_eq!((stdout.as_str(), stderr.as_str()), ("SunOS", "err"))
        }
        other => panic!("{:?}", other),
    }
}

#[test]
fn triples() {
    assert_eq!(
        get_triple(0, "x86_64-unknown-linux-gnu\r\n").unwrap(),
        "x86_64-unknown-linux-gnu"
    );
    assert!(matches!(
        get_triple(2, "x").unwrap_err().kind,
        ErrorKind::CommandFailed(2)
    ));
}

#[test]
fn paths() {
    assert_eq!(format_path("a/b\\c", &Os::Windows), "a\\b\\c");
    assert_eq!(format_path("a/b\\c", &Os::UnixLike), "a/b/c");
    let once = format_path("C:/x\\y", &Os::Windows);
    assert_eq!(format_path(&once, &Os::Windows), once);
    assert_eq!(format_path(&once, &Os::UnixLike), "C:/x/y");
    assert_eq!(
        format_path(&format_path("C:/x\\y", &Os::UnixLike), &Os::Windows),
        once
    );
}

#[test]
fn questions_about_a_path() {
    assert_eq!(
        is_dir_command(&Os::UnixLike, &Some("/usr/bin".to_string()), "/usr/bin\\cccp"),
        "[ -d \"/usr/bin\" ] && ( [ -d \"/usr/bin/cccp\" ] && echo true || \
         ([ -f \"/usr/bin/cccp\" ] && echo false || echo not_found )) || echo dnf"
    );
    assert_eq!(
        is_dir_command(&Os::Windows, &None, "C:/cccp"),
        "if exist \".\" ( if exist \"C:\\cccp\\\" ( echo true ) else ( if exist \"C:\\cccp\" \
         ( echo false ) else ( echo not_found ))) else (echo dnf)"
    );
}

#[test]
fn answers_about_a_path() {
    assert!(is_dir(0, "true\n").unwrap());
    assert!(!is_dir(0, "false\n").unwrap());
    let kind = |status, stdout: &str| is_dir(status, stdout).unwrap_err().kind;
    assert!(matches!(kind(0, "not_found"), ErrorKind::FileNotFound));
    assert!(matches!(kind(0, "dnf"), ErrorKind::DirectoryNotFound));
    assert!(matches!(kind(0, ""), ErrorKind::CommandFailed(0)));
    assert!(matches!(kind(0, "x"), ErrorKind::CommandFailed(0)));
    assert!(matches!(kind(4, "true"), ErrorKind::CommandFailed(4)));
}

#[test]
fn install_destinations() {
    let step = |is_dir, overwrite| destination_step(is_dir, overwrite);
    assert_eq!(step(Ok(true), false).unwrap(), DestinationStep::AppendName);
    assert_eq!(step(Ok(true), true).unwrap(), DestinationStep::AppendName);
    assert_eq!(step(Ok(false), false).unwrap(), DestinationStep::Ask);
    assert_eq!(step(Ok(false), true).unwrap(), DestinationStep::Install);
    assert_eq!(
        step(Err(Error::new(ErrorKind::FileNotFound)), false).unwrap(),
        DestinationStep::Install
    );
    assert!(matches!(
        step(Err(Error::new(ErrorKind::DirectoryNotFound)), true)
            .unwrap_err()
            .kind,
        ErrorKind::DirectoryNotFound
    ));
    assert_eq!(binary_name(&Os::Windows), "cccp.exe");
    assert_eq!(binary_name(&Os::UnixLike), "cccp");
}

#[test]
fn answers_of_the_user() {
    assert!(agrees("y\n"));
    assert!(agrees("YES"));
    assert!(!agrees("n"));
    assert!(!agrees(""));
    assert!(!agrees(" y"));
    assert_eq!(overwrite_step(agrees("y")), OverwriteStep::Install);
    assert_eq!(overwrite_step(agrees("n")), OverwriteStep::Stop);
}

#[test]
fn versions() {
    assert_eq!(tag_version("v1.2.3").unwrap(), "1.2.3");
    assert!(tag_version("1.2.3").is_none());
    assert!(tag_version("").is_none());
    assert!(is_out_of_date("0.9.10", "0.10.0").unwrap());
    assert!(!is_out_of_date("0.10.0", "0.9.10").unwrap());
    assert!(!is_out_of_date("1.0.0", "1.0.0").unwrap());
    assert!(is_out_of_date("1.0.0", "1.0.1").unwrap());
    assert!(is_out_of_date("1.0.0-alpha", "1.0.0").unwrap());
    let error = is_out_of_date("1.0", "1.0.0").unwrap_err();
    assert_eq!(
        error.message(""),
        "Version error: unexpected end of input while parsing minor version number"
    );
    assert!(is_out_of_date("1.0.0", "x").is_err());
    assert!(version_result(Ok(true)).unwrap());
    assert!(version_result(Err("bad".to_string())).is_err());
}

#[test]
fn assets() {
    let names: Vec<String> = ["cccp-a-b.tar.gz", "cccp-x-y.tar.gz", "cccp-x-y.sig"]
        .iter()
        .map(|name| name.to_string())
        .collect();
    assert_eq!(select_asset(&names, "x-y").unwrap(), 1);
    assert!(matches!(
        select_asset(&names, "w").unwrap_err().kind,
        ErrorKind::NoSuitableRelease
    ));
}

fn archive(files: &[(&str, &[u8])]) -> Vec<u8> {
    let mut builder = tar::Builder::new(Vec::new());
    for (name, content) in files {
        let mut header = tar::Header::new_gnu();
        header.set_size(content.len() as u64);
        header.set_cksum();
        builder.append_data(&mut header, name, *content).unwrap();
    }
    builder.into_inner().unwrap()
}

#[test]
fn archives() {
    let bytes = archive(&[("cccp", b"program"), ("README", b"text")]);
    assert_eq!(binary_content(&bytes).unwrap(), b"program".to_vec());
    assert!(matches!(
        binary_content(&archive(&[])).unwrap_err().kind,
        ErrorKind::FileNotFound
    ));
    assert!(matches!(
        binary_content(&vec![1; 600]).unwrap_err().kind,
        ErrorKind::Io(_)
    ));
    assert_eq!(entry_content(Ok(Some(vec![7]))).unwrap(), vec![7]);
    assert!(entry_content(Ok(None)).is_err());
    assert!(entry_content(Err("broken".to_string())).is_err());
}

/// The header of a sparse file that goes on in further blocks, with the given size.
fn sparse_header(size: u64) -> Vec<u8> {
    let mut header = tar::Header::new_gnu();
    header.set_entry_type(tar::EntryType::GNUSparse);
    header.set_size(size);
    header.as_gnu_mut().unwrap().set_is_extended(true);
    header.set_cksum();
    header.as_bytes().to_vec()
}

/// So many empty blocks, of which each goes on in the next.
fn further_blocks(count: usize) -> Vec<u8> {
    let mut block = vec![0; 512];
    block[504] = 1;
    block.repeat(count)
}

/// The header and the content of extended attributes.
fn attributes(record: &[u8]) -> Vec<u8> {
    let mut header = tar::Header::new_ustar();
    header.set_entry_type(tar::EntryType::XHeader);
    header.set_size(record.len() as u64);
    header.set_cksum();
    let mut bytes = header.as_bytes().to_vec();
    bytes.extend(record);
    bytes.resize(1024, 0);
    bytes
}

#[test]
fn oversized_archives() {
    let report = |bytes: &Vec<u8>| match binary_content(bytes).unwrap_err().kind {
        ErrorKind::Io(text) => text,
        other => panic!("{:?}", other),
    };
    let huge = [sparse_header(u64::MAX - 2047), further_blocks(3)].concat();
    assert!(check_oversized(&huge));
    assert_eq!(report(&huge), OVERSIZED);
    // a size that leaves room for the archive is read, and found faulty
    let large = [sparse_header(u64::MAX - 511 - 2048), further_blocks(3)].concat();
    assert!(!check_oversized(&large));
    assert_eq!(report(&large), "failed to read extension");
    let large = [sparse_header(u64::MAX - 511 - 2047), further_blocks(3)].concat();
    assert!(check_oversized(&large));
    // the size may stand in the attributes before
    let record = b"29 size=18446744073709549568\n";
    let huge = [attributes(record), sparse_header(0), further_blocks(3)].concat();
    assert!(check_oversized(&huge));
    assert_eq!(report(&huge), OVERSIZED);
    // only the first entry counts
    let mut later = archive(&[("cccp", b"program")])[..1024].to_vec();
    later.extend([attributes(record), sparse_header(u64::MAX - 2047)].concat());
    assert!(!check_oversized(&later));
    assert_eq!(binary_content(&later).unwrap(), b"program".to_vec());
    // attributes before an ordinary file do no harm
    let mut named = attributes(b"13 path=abcd\n");
    named.extend(archive(&[("cccp", b"program")]));
    assert!(!check_oversized(&named));
    assert_eq!(binary_content(&named).unwrap(), b"program".to_vec());
}

#[test]
fn sources_of_the_binary() {
    assert!(matches!(
        binary_source(Some("/tmp/cccp")),
        BinarySource::Custom("/tmp/cccp")
    ));
    assert!(matches!(
        binary_source(None::<String>),
        BinarySource::Release
    ));
}

#[test]
fn downloads() {
    let gzip = |bytes: Vec<u8>| {
        let mut compressed = Vec::new();
        block_on(GzipEncoder::new(bytes.as_slice()).read_to_end(&mut compressed)).unwrap();
        compressed
    };
    let download = gzip(archive(&[("cccp", b"program")]));
    assert_eq!(unpack(&download).unwrap(), b"program".to_vec());
    // inside of an executor, too
    let content = block_on(async { unpack(&download) });
    assert_eq!(content.unwrap(), b"program".to_vec());
    assert!(matches!(
        unpack(&gzip(archive(&[]))).unwrap_err().kind,
        ErrorKind::FileNotFound
    ));
    assert!(matches!(
        unpack(&archive(&[("cccp", b"program")])).unwrap_err().kind,
        ErrorKind::Io(_)
    ));
    assert!(unpack(&download[..20].to_vec()).is_err());
    match archive_binary(Err("broken".to_string())).unwrap_err().kind {
        ErrorKind::Io(text) => assert_eq!(text, "broken"),
        other => panic!("{:?}", other),
    }
}
