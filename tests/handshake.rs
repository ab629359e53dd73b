use embedded_tls::error::TlsError;
use embedded_tls::record::ContentType;
use embedded_tls::handshake::{
    first_message_len, handshake_message_type, is_hello_retry_request, Handshake, ServerCheck, State,
};

const HRR_RANDOM: [u8; 32] = [
    0xCF, 0x21, 0xAD, 0x74, 0xE5, 0x9A, 0x61, 0x11, 0xBE, 0x1D, 0x8C, 0x02, 0x1E, 0x65, 0xB8, 0x91,
    0xC2, 0xA2, 0x11, 0x16, 0x7A, 0xBB, 0x8C, 0x5E, 0x07, 0x9E, 0x09, 0xE2, 0xC8, 0xA8, 0x33, 0x9C,
];

fn msg(ty: u8, body: &[u8]) -> Vec<u8> {
    let n = body.len();
    let mut v = vec![ty, (n >> 16) as u8, (n >> 8) as u8, n as u8];
    v.extend_from_slice(body);
    v
}

fn server_hello(random: &[u8; 32]) -> Vec<u8> {
    let mut body = vec![3, 3];
    body.extend_from_slice(random);
    body.extend_from_slice(&[0, 0x13, 0x01, 0]);
    msg(2, &body)
}

#[test]
fn basic_handshake_transcript() {
    let ch = msg(1, &[0u8; 40]);
    let sh = server_hello(&[0u8; 32]);
    let ee = msg(8, &[0, 0]);
    let cert = msg(11, &[1, 2, 3]);
    let cv = msg(15, &[8, 4]);
    let fin = msg(20, &[0x55; 32]);
    let cfin = msg(20, &[0x66; 32]);
    let mut hs = Handshake::new();
    assert!(hs.change_cipher_spec_received().is_err());
    hs.client_hello_sent(&ch).unwrap();
    assert!(hs.change_cipher_spec_received().is_ok());
    hs.server_hello_received(&sh).unwrap();
    hs.server_message_received(&ee, false).unwrap();
    hs.server_message_received(&cert, true).unwrap();
    hs.server_message_received(&cv, true).unwrap();
    hs.server_message_received(&fin, true).unwrap();
    assert_eq!(hs.state(), State::ClientFinished);
    hs.client_finished_sent(&cfin).unwrap();
    assert_eq!(hs.state(), State::ApplicationData);
    assert!(matches!(hs.change_cipher_spec_received(), Err(TlsError::UnexpectedMessage)));
    let want: Vec<u8> = [ch, sh, ee, cert, cv, fin, cfin].concat();
    assert_eq!(hs.transcript(), &want[..]);
}

#[test]
fn hello_retry_request() {
    let ch1 = msg(1, &[1u8; 40]);
    let hrr = server_hello(&HRR_RANDOM);
    let ch2 = msg(1, &[2u8; 44]);
    let sh = server_hello(&[9u8; 32]);
    let h = [0xABu8; 32];
    assert!(is_hello_retry_request(&hrr));
    assert!(!is_hello_retry_request(&sh));
    let mut hs = Handshake::new();
    hs.client_hello_sent(&ch1).unwrap();
    assert!(matches!(hs.server_hello_received(&hrr), Err(TlsError::UnexpectedMessage)));
    hs.hello_retry_received(&hrr, &h).unwrap();
    assert_eq!(hs.state(), State::ClientHello);
    hs.client_hello_sent(&ch2).unwrap();
    assert!(matches!(hs.hello_retry_received(&hrr, &h), Err(TlsError::UnexpectedMessage)));
    hs.server_hello_received(&sh).unwrap();
    assert_eq!(hs.state(), State::ServerVerify);
    let mut want = vec![254, 0, 0, 32];
    want.extend_from_slice(&h);
    want.extend_from_slice(&hrr);
    want.extend_from_slice(&ch2);
    want.extend_from_slice(&sh);
    assert_eq!(hs.transcript(), &want[..]);
}

#[test]
fn certificate_request_path() {
    let mut hs = Handshake::new();
    hs.client_hello_sent(&msg(1, &[0; 4])).unwrap();
    hs.server_hello_received(&server_hello(&[0; 32])).unwrap();
    hs.server_message_received(&msg(8, &[0, 0]), false).unwrap();
    hs.server_message_received(&msg(13, &[0]), false).unwrap();
    hs.server_message_received(&msg(11, &[0]), true).unwrap();
    hs.server_message_received(&msg(15, &[0]), true).unwrap();
    hs.server_message_received(&msg(20, &[0]), true).unwrap();
    assert_eq!(hs.state(), State::ClientCert);
    assert!(matches!(hs.client_finished_sent(&msg(20, &[0])), Err(TlsError::UnexpectedMessage)));
    hs.client_certificate_sent(&msg(11, &[])).unwrap();
    assert_eq!(hs.state(), State::ClientFinished);
}

#[test]
fn handshake_errors() {
    assert!(matches!(handshake_message_type(&[1, 0, 0]), Err(TlsError::DecodeError)));
    assert!(matches!(handshake_message_type(&[1, 0, 0, 2, 5]), Err(TlsError::DecodeError)));
    assert_eq!(handshake_message_type(&[8, 0, 0, 1, 5]).unwrap(), 8);
    let mut hs = Handshake::new();
    assert!(matches!(hs.server_hello_received(&server_hello(&[0; 32])), Err(TlsError::UnexpectedMessage)));
    assert!(matches!(hs.client_hello_sent(&msg(2, &[])), Err(TlsError::DecodeError)));
    hs.client_hello_sent(&msg(1, &[])).unwrap();
    hs.server_hello_received(&server_hello(&[0; 32])).unwrap();
    assert!(matches!(hs.server_message_received(&msg(11, &[]), true), Err(TlsError::UnexpectedMessage)));
    assert!(matches!(hs.server_message_received(&msg(8, &[0, 8, 0, 0, 0, 0, 0, 0, 0, 0]), true), Err(TlsError::DecodeError)));
    hs.server_message_received(&msg(8, &[0, 0]), true).unwrap();
    assert!(matches!(hs.server_message_received(&msg(11, &[]), false), Err(TlsError::CryptoError)));
    hs.server_message_received(&msg(11, &[]), true).unwrap();
    assert!(matches!(hs.server_message_received(&msg(15, &[]), false), Err(TlsError::CryptoError)));
    hs.server_message_received(&msg(15, &[]), true).unwrap();
    assert!(matches!(hs.server_message_received(&msg(20, &[]), false), Err(TlsError::CryptoError)));
    assert_eq!(hs.transcript().len(), 4 + 42 + 6 + 4 + 4);
}

#[test]
fn messages_split_from_record_body() {
    let mut body = msg(8, &[0, 0]);
    body.extend_from_slice(&msg(11, &[1, 2, 3]));
    assert_eq!(first_message_len(&body).unwrap(), 6);
    assert_eq!(first_message_len(&body[6..]).unwrap(), 7);
    assert!(matches!(first_message_len(&body[6..12]), Err(TlsError::DecodeError)));
    assert!(matches!(first_message_len(&[8, 0]), Err(TlsError::DecodeError)));
}

#[test]
fn handshake_records_and_checks() {
    let mut hs = Handshake::new();
    assert!(matches!(hs.handshake_record(ContentType::ChangeCipherSpec), Err(TlsError::UnexpectedMessage)));
    assert!(matches!(hs.handshake_record(ContentType::Handshake), Err(TlsError::UnexpectedMessage)));
    hs.client_hello_sent(&msg(1, &[0; 4])).unwrap();
    assert_eq!(hs.handshake_record(ContentType::ChangeCipherSpec).unwrap(), false);
    assert_eq!(hs.handshake_record(ContentType::Handshake).unwrap(), true);
    assert!(matches!(hs.handshake_record(ContentType::Alert), Err(TlsError::InternalError)));
    assert!(matches!(hs.handshake_record(ContentType::ApplicationData), Err(TlsError::UnexpectedMessage)));
    assert_eq!(hs.server_check(&server_hello(&HRR_RANDOM)).unwrap(), ServerCheck::HelloRetry);
    assert_eq!(hs.server_check(&server_hello(&[0; 32])).unwrap(), ServerCheck::ServerHello);
    assert!(matches!(hs.server_check(&msg(8, &[0, 0])), Err(TlsError::UnexpectedMessage)));
    hs.server_hello_received(&server_hello(&[0; 32])).unwrap();
    assert_eq!(hs.server_check(&msg(8, &[0, 0])).unwrap(), ServerCheck::Plain);
    assert_eq!(hs.server_check(&msg(11, &[])).unwrap(), ServerCheck::Certificate);
    assert_eq!(hs.server_check(&msg(15, &[])).unwrap(), ServerCheck::Signature);
    assert_eq!(hs.server_check(&msg(20, &[])).unwrap(), ServerCheck::Finished);
    assert!(matches!(hs.server_check(&msg(20, &[1])[..4]), Err(TlsError::DecodeError)));
}
