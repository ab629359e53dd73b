use embedded_tls::error::TlsError;
use embedded_tls::messages::{
    check_client_hello_fits, check_extension_block, check_retry_selection, check_server_selection,
    encode_client_hello, encode_finished, finished_matches, hkdf_label, parse_certificate, parse_certificate_verify, parse_server_hello,
    ServerHello,
};

#[test]
fn client_hello_bytes() {
    let random = [0u8; 32];
    let key = [0xAAu8; 32];
    let ch = encode_client_hello(&random, &[0x1301], &[0x001d], &[0x0804, 0x0403], 0x001d, &key, Some(b"a.io"));
    let mut want: Vec<u8> = vec![3, 3];
    want.extend_from_slice(&random);
    want.extend_from_slice(&[0, 0, 2, 0x13, 0x01, 1, 0]);
    let mut exts: Vec<u8> = vec![0, 43, 0, 3, 2, 3, 4];
    exts.extend_from_slice(&[0, 10, 0, 4, 0, 2, 0, 0x1d]);
    exts.extend_from_slice(&[0, 13, 0, 6, 0, 4, 8, 4, 4, 3]);
    exts.extend_from_slice(&[0, 51, 0, 38, 0, 36, 0, 0x1d, 0, 32]);
    exts.extend_from_slice(&key);
    exts.extend_from_slice(&[0, 0, 0, 9, 0, 7, 0, 0, 4, b'a', b'.', b'i', b'o']);
    want.extend_from_slice(&[0, exts.len() as u8]);
    want.extend_from_slice(&exts);
    let mut msg = vec![1, 0, 0, want.len() as u8];
    msg.extend_from_slice(&want);
    assert_eq!(ch, msg);
}

#[test]
fn client_hello_without_server_name() {
    let ch = encode_client_hello(&[7u8; 32], &[0x1301, 0x1303], &[0x0017], &[0x0403], 0x0017, &[1, 2], None);
    assert_eq!(&ch[..4], &[1, 0, 0, (ch.len() - 4) as u8]);
    assert_eq!(&ch[4..6], &[3, 3]);
    assert_eq!(&ch[6..38], &[7u8; 32]);
    assert_eq!(&ch[38..45], &[0, 0, 4, 0x13, 0x01, 0x13, 0x03]);
    assert_eq!(&ch[ch.len() - 12..], &[0, 51, 0, 8, 0, 6, 0, 0x17, 0, 2, 1, 2]);
}

fn sh_message(random: &[u8; 32], sid: &[u8], suite: u16, exts: &[u8]) -> Vec<u8> {
    let mut body = vec![3, 3];
    body.extend_from_slice(random);
    body.push(sid.len() as u8);
    body.extend_from_slice(sid);
    body.extend_from_slice(&[(suite >> 8) as u8, suite as u8, 0]);
    body.extend_from_slice(&[(exts.len() >> 8) as u8, exts.len() as u8]);
    body.extend_from_slice(exts);
    let mut m = vec![2, 0, (body.len() >> 8) as u8, body.len() as u8];
    m.extend_from_slice(&body);
    m
}

#[test]
fn server_hello_parsed() {
    let mut exts = vec![0, 43, 0, 2, 3, 4];
    exts.extend_from_slice(&[0, 51, 0, 8, 0, 0x1d, 0, 4, 9, 8, 7, 6]);
    exts.extend_from_slice(&[0, 99, 0, 1, 5]);
    let m = sh_message(&[1; 32], &[2; 32], 0x1301, &exts);
    let sh = parse_server_hello(&m, false).unwrap();
    assert_eq!(sh.cipher_suite, 0x1301);
    assert_eq!(sh.group, 0x1d);
    assert_eq!(sh.key_share, vec![9, 8, 7, 6]);
}

#[test]
fn hello_retry_request_parsed() {
    let exts = vec![0, 51, 0, 2, 0, 0x17, 0, 43, 0, 2, 3, 4];
    let m = sh_message(&[1; 32], &[], 0x1301, &exts);
    let hrr = parse_server_hello(&m, true).unwrap();
    assert_eq!(hrr.group, 0x17);
    assert!(hrr.key_share.is_empty());
    assert!(matches!(parse_server_hello(&m, false), Err(TlsError::DecodeError)));
}

#[test]
fn server_hello_rejected() {
    let ks = [0, 51, 0, 6, 0, 0x1d, 0, 2, 1, 2];
    // No supported_versions.
    assert!(matches!(parse_server_hello(&sh_message(&[0; 32], &[], 0x1301, &ks), false), Err(TlsError::DecodeError)));
    // TLS 1.2 selected.
    let mut e = vec![0, 43, 0, 2, 3, 3];
    e.extend_from_slice(&ks);
    assert!(matches!(parse_server_hello(&sh_message(&[0; 32], &[], 0x1301, &e), false), Err(TlsError::DecodeError)));
    // Duplicate supported_versions.
    let mut e = vec![0, 43, 0, 2, 3, 4, 0, 43, 0, 2, 3, 4];
    e.extend_from_slice(&ks);
    assert!(matches!(parse_server_hello(&sh_message(&[0; 32], &[], 0x1301, &e), false), Err(TlsError::DecodeError)));
    // Extension running past the end.
    let e = vec![0, 43, 0, 9, 3, 4];
    assert!(matches!(parse_server_hello(&sh_message(&[0; 32], &[], 0x1301, &e), false), Err(TlsError::DecodeError)));
    // Session id too long.
    let mut e = vec![0, 43, 0, 2, 3, 4];
    e.extend_from_slice(&ks);
    assert!(matches!(parse_server_hello(&sh_message(&[0; 32], &[0; 33], 0x1301, &e), false), Err(TlsError::DecodeError)));
    assert!(parse_server_hello(&sh_message(&[0; 32], &[0; 32], 0x1301, &e), false).is_ok());
    // Truncated.
    assert!(matches!(parse_server_hello(&[2, 0, 0, 3, 3, 3, 0], false), Err(TlsError::DecodeError)));
}

#[test]
fn extension_blocks_checked() {
    // EncryptedExtensions with server_name (empty) and max_fragment_length.
    let ok = [8, 0, 0, 11, 0, 9, 0, 0, 0, 0, 0, 1, 0, 1, 2];
    assert!(check_extension_block(&ok));
    let dup = [8, 0, 0, 10, 0, 8, 0, 0, 0, 0, 0, 0, 0, 0];
    assert!(!check_extension_block(&dup));
    let overrun = [8, 0, 0, 6, 0, 4, 0, 1, 0, 9];
    assert!(!check_extension_block(&overrun));
    let short_block = [8, 0, 0, 4, 0, 3, 0, 0];
    assert!(!check_extension_block(&short_block));
    assert!(check_extension_block(&[8, 0, 0, 2, 0, 0]));
    assert!(!check_extension_block(&[8, 0, 0, 1, 0]));
}

#[test]
fn server_hello_unknown_extension_repeated() {
    let mut exts = vec![0, 43, 0, 2, 3, 4];
    exts.extend_from_slice(&[0, 51, 0, 6, 0, 0x1d, 0, 2, 1, 2]);
    exts.extend_from_slice(&[0, 99, 0, 0, 0, 99, 0, 0]);
    let m = sh_message(&[1; 32], &[], 0x1301, &exts);
    assert!(matches!(parse_server_hello(&m, false), Err(TlsError::DecodeError)));
}

#[test]
fn certificate_verify_parsed() {
    let (scheme, sig) = parse_certificate_verify(&[15, 0, 0, 7, 0x08, 0x04, 0, 3, 1, 2, 3]).unwrap();
    assert_eq!(scheme, 0x0804);
    assert_eq!(sig, vec![1, 2, 3]);
    assert!(matches!(parse_certificate_verify(&[15, 0, 0, 6, 0x08, 0x04, 0, 3, 1, 2]), Err(TlsError::DecodeError)));
    assert!(matches!(parse_certificate_verify(&[15, 0, 0, 2, 0x08]), Err(TlsError::DecodeError)));
}

#[test]
fn certificate_chain_parsed() {
    // Empty context; two entries: [0xA1, 0xA2] with no extensions, [0xB1]
    // with a 1-byte extension block.
    let entries = [0, 0, 2, 0xA1, 0xA2, 0, 0, 0, 0, 1, 0xB1, 0, 1, 9];
    let mut m = vec![11, 0, 0, (4 + entries.len()) as u8, 0, 0, 0, entries.len() as u8];
    m.extend_from_slice(&entries);
    let ranges = parse_certificate(&m).unwrap();
    assert_eq!(ranges.len(), 2);
    assert_eq!(&m[ranges[0].0..ranges[0].1], &[0xA1, 0xA2]);
    assert_eq!(&m[ranges[1].0..ranges[1].1], &[0xB1]);
    // A certificate running past the list.
    let bad = [11, 0, 0, 7, 0, 0, 0, 3, 0, 0, 9];
    assert!(matches!(parse_certificate(&bad), Err(TlsError::DecodeError)));
    // List length disagreeing with the message.
    let bad = [11, 0, 0, 4, 0, 0, 0, 1];
    assert!(matches!(parse_certificate(&bad), Err(TlsError::DecodeError)));
    // An empty chain.
    assert_eq!(parse_certificate(&[11, 0, 0, 4, 0, 0, 0, 0]).unwrap().len(), 0);
}

#[test]
fn client_hello_long_lists() {
    let suites: Vec<u16> = (0..300u16).collect();
    let key = vec![5u8; 1200];
    assert!(check_client_hello_fits(300, 1, 1, 1200, 0));
    assert!(!check_client_hello_fits(40000, 1, 1, 1200, 0));
    assert!(!check_client_hello_fits(1, 30000, 3000, 0, 0));
    let ch = encode_client_hello(&[0u8; 32], &suites, &[0x1d], &[0x0804], 0x1d, &key, None);
    let body = ch.len() - 4;
    assert_eq!(&ch[..4], &[1, (body >> 16) as u8, (body >> 8) as u8, body as u8]);
    assert_eq!(&ch[38..41], &[0, 2, 88]);
}

#[test]
fn server_selection_checked() {
    let hello = ServerHello { cipher_suite: 0x1301, group: 0x1d, key_share: vec![1] };
    assert!(check_server_selection(&[0x1302, 0x1301], 0x1d, &hello));
    assert!(!check_server_selection(&[0x1302], 0x1d, &hello));
    assert!(!check_server_selection(&[0x1301], 0x17, &hello));
    let hrr = ServerHello { cipher_suite: 0x1301, group: 0x17, key_share: vec![] };
    assert!(check_retry_selection(&[0x1301], &[0x1d, 0x17], 0x1d, &hrr));
    assert!(!check_retry_selection(&[0x1301], &[0x1d, 0x17], 0x17, &hrr));
    assert!(!check_retry_selection(&[0x1301], &[0x1d], 0x1d, &hrr));
    assert!(!check_retry_selection(&[0x1303], &[0x1d, 0x17], 0x1d, &hrr));
}

#[test]
fn hkdf_label_bytes() {
    // RFC 8448: HkdfLabel for the client handshake key, 16 bytes, empty context.
    assert_eq!(hkdf_label(16, b"key", &[]), vec![0, 16, 9, b't', b'l', b's', b'1', b'3', b' ', b'k', b'e', b'y', 0]);
    let ctx = [0xABu8; 32];
    let l = hkdf_label(32, b"c hs traffic", &ctx);
    assert_eq!(&l[..3], &[0, 32, 18]);
    assert_eq!(&l[3..21], b"tls13 c hs traffic");
    assert_eq!(l[21], 32);
    assert_eq!(&l[22..], &ctx);
}

#[test]
fn finished_messages() {
    let mac = [0x5Au8; 32];
    let fin = encode_finished(&mac);
    assert_eq!(&fin[..4], &[20, 0, 0, 32]);
    assert_eq!(&fin[4..], &mac);
    assert!(finished_matches(&fin, &mac));
    let mut bad = fin.clone();
    bad[10] ^= 1;
    assert!(!finished_matches(&bad, &mac));
    assert!(!finished_matches(&fin[..35], &mac));
    assert!(!finished_matches(&[20, 0], &[]));
}
