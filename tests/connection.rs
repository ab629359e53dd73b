use embedded_tls::connection::{alert_description, TlsConnection, TLS_RECORD_OVERHEAD};
use embedded_tls::error::TlsError;
use embedded_tls::handshake::{Handshake, State};
use embedded_tls::key_schedule::{compute_nonce, TrafficKeys, AEAD_TAG_LEN};
use embedded_tls::record::ContentType;

fn keys(k: u8) -> TrafficKeys {
    TrafficKeys { key: vec![k; 16], iv: vec![k; 12] }
}

// A stand-in AEAD for the tests: the "tag" is sixteen bytes, each the sum of
// the plaintext and the nonce, so that any change to the sealed body is seen.
fn tag(nonce: &[u8], body: &[u8]) -> u8 {
    let mut t: u8 = 0;
    for b in nonce.iter().chain(body.iter()) {
        t = t.wrapping_add(*b).rotate_left(1);
    }
    t
}

fn seal(nonce: &[u8], plaintext: &[u8]) -> Vec<u8> {
    let mut v = plaintext.to_vec();
    let t = tag(nonce, plaintext);
    v.extend_from_slice(&[t; AEAD_TAG_LEN]);
    v
}

fn open_body(nonce: &[u8], sealed: &[u8]) -> Option<Vec<u8>> {
    if sealed.len() < AEAD_TAG_LEN {
        return None;
    }
    let (body, t) = sealed.split_at(sealed.len() - AEAD_TAG_LEN);
    let want = tag(nonce, body);
    if t.iter().all(|b| *b == want) {
        Some(body.to_vec())
    } else {
        None
    }
}

fn msg(ty: u8, body: &[u8]) -> Vec<u8> {
    let n = body.len();
    let mut v = vec![ty, (n >> 16) as u8, (n >> 8) as u8, n as u8];
    v.extend_from_slice(body);
    v
}

fn finished_handshake() -> Handshake {
    let mut hs = Handshake::new();
    hs.client_hello_sent(&msg(1, &[0u8; 40])).unwrap();
    hs.server_hello_received(&msg(2, &[0u8; 40])).unwrap();
    hs.server_message_received(&msg(8, &[0, 0]), false).unwrap();
    hs.server_message_received(&msg(11, &[7]), true).unwrap();
    hs.server_message_received(&msg(15, &[7]), true).unwrap();
    hs.server_message_received(&msg(20, &[7; 32]), true).unwrap();
    hs.client_finished_sent(&msg(20, &[9; 32])).unwrap();
    assert_eq!(hs.state(), State::ApplicationData);
    hs
}

fn opened(read_len: usize, write_len: usize) -> TlsConnection {
    let mut c = TlsConnection::new(vec![0u8; read_len], vec![0u8; write_len]);
    c.install_handshake_keys(keys(1), keys(2));
    let hs = finished_handshake();
    c.open(&hs, keys(3), keys(4)).unwrap();
    c
}

// The peer's side: seals `inner` (message then content type) under the
// server application keys at `counter`.
fn peer_record(counter: u64, inner: &[u8]) -> Vec<u8> {
    let nonce = compute_nonce(&keys(4).iv, counter);
    seal(&nonce, inner)
}

fn deliver(c: &mut TlsConnection, sealed: &[u8]) -> Result<(), TlsError> {
    let header = embedded_tls::record::RecordHeader {
        content_type: ContentType::ApplicationData,
        version: 0x0303,
        length: sealed.len() as u16,
    };
    let req = c.open_request(&header).unwrap();
    let body = open_body(&req.nonce, sealed);
    c.receive_record(ContentType::ApplicationData, body.as_deref())
}

fn flush(c: &mut TlsConnection) -> Option<Vec<u8>> {
    let req = c.flush_request()?;
    let sealed = seal(&req.nonce, &req.plaintext);
    let n = c.flush(&sealed).unwrap();
    Some(c.write_buffer()[..n].to_vec())
}

#[test]
fn write_then_flush() {
    let mut c = opened(1024, 200);
    let data = [0xAAu8; 100];
    assert_eq!(c.write(&data).unwrap(), 72);
    assert!(c.needs_flush());
    let rec1 = flush(&mut c).unwrap();
    assert!(rec1.len() <= 200);
    assert_eq!(rec1.len(), 5 + 72 + 1 + AEAD_TAG_LEN);
    assert_eq!(c.write(&data[72..]).unwrap(), 28);
    assert!(!c.needs_flush());
    let rec2 = flush(&mut c).unwrap();
    assert!(rec2.len() <= 200);
    assert_eq!(&rec2[..5], &[23, 3, 3, 0, (28 + 1 + AEAD_TAG_LEN) as u8]);
    assert_eq!(&rec2[5..33], &[0xAAu8; 28]);
    assert_eq!(rec2[33], 23);
    assert!(flush(&mut c).is_none());
}

#[test]
fn record_size_bound() {
    let mut c = opened(64, 129);
    assert_eq!(c.max_block_size(), 1);
    assert_eq!(c.write(&[5, 6, 7]).unwrap(), 1);
    let rec = flush(&mut c).unwrap();
    assert!(rec.len() <= 1 + TLS_RECORD_OVERHEAD);
    let mut big = opened(64, 40000);
    assert_eq!(big.max_block_size(), 16384);
}

#[test]
fn split_read() {
    let mut c = opened(1024, 200);
    let data: Vec<u8> = (0..50u8).collect();
    let mut inner = data.clone();
    inner.push(23);
    assert!(c.needs_record());
    deliver(&mut c, &peer_record(0, &inner)).unwrap();
    assert!(!c.needs_record());
    let mut out = [0u8; 64];
    assert_eq!(c.read(&mut out[..20]).unwrap(), 20);
    assert_eq!(&out[..20], &data[..20]);
    assert_eq!(c.read(&mut out[..20]).unwrap(), 20);
    assert_eq!(&out[..20], &data[20..40]);
    assert_eq!(c.read(&mut out[..20]).unwrap(), 10);
    assert_eq!(&out[..10], &data[40..]);
    assert!(c.needs_record());
}

#[test]
fn round_trip_through_records() {
    let mut writer = opened(64, 160);
    let mut reader = opened(1024, 200);
    let plain: Vec<u8> = (0..90u8).map(|b| b.wrapping_mul(7)).collect();
    let mut got = Vec::new();
    let mut off = 0;
    let mut counter: u64 = 0;
    for chunk in [5usize, 13, 40, 32] {
        let end = usize::min(off + chunk, plain.len());
        let mut pos = off;
        while pos < end {
            pos += writer.write(&plain[pos..end]).unwrap();
            if writer.needs_flush() {
                let rec = flush(&mut writer).unwrap();
                // The writer seals with its client keys; the reader here opens
                // with the same stand-in AEAD under the writer's nonce.
                let inner = open_body(&compute_nonce(&keys(3).iv, counter), &rec[5..]).unwrap();
                deliver(&mut reader, &peer_record(counter, &inner)).unwrap();
                counter += 1;
                let mut out = [0u8; 64];
                let n = reader.read(&mut out).unwrap();
                got.extend_from_slice(&out[..n]);
            }
        }
        off = end;
    }
    if let Some(rec) = flush(&mut writer) {
        let inner = open_body(&compute_nonce(&keys(3).iv, counter), &rec[5..]).unwrap();
        deliver(&mut reader, &peer_record(counter, &inner)).unwrap();
        let mut out = [0u8; 64];
        let n = reader.read(&mut out).unwrap();
        got.extend_from_slice(&out[..n]);
    }
    assert_eq!(got, plain);
}

#[test]
fn close_notify_inbound() {
    let mut c = opened(1024, 200);
    assert!(matches!(deliver(&mut c, &peer_record(0, &[1, 0, 21])), Err(TlsError::ConnectionClosed)));
    let mut out = [0u8; 8];
    assert!(matches!(c.read(&mut out), Err(TlsError::ConnectionClosed)));
    assert!(c.is_closed());
    assert!(matches!(c.write(&[1]), Err(TlsError::ConnectionClosed)));
}

#[test]
fn other_alert_is_internal_error() {
    let mut c = opened(1024, 200);
    assert!(matches!(deliver(&mut c, &peer_record(0, &[2, 40, 21])), Err(TlsError::InternalError)));
}

#[test]
fn tampered_mac() {
    let mut c = opened(1024, 200);
    let mut rec = peer_record(0, &[1, 2, 3, 23]);
    let last = rec.len() - 1;
    rec[last] ^= 1;
    assert!(matches!(deliver(&mut c, &rec), Err(TlsError::CryptoError)));
    let mut out = [0u8; 8];
    assert!(matches!(c.read(&mut out), Err(TlsError::CryptoError)));
    assert!(matches!(c.read(&mut out), Err(TlsError::CryptoError)));
    assert!(matches!(c.read_buffered(), Err(TlsError::CryptoError)));
}

#[test]
fn record_from_wrong_epoch_fails() {
    let mut c = opened(1024, 200);
    // Sealed under the server's handshake keys, not the application keys.
    let nonce = compute_nonce(&keys(2).iv, 0);
    let rec = seal(&nonce, &[1, 2, 3, 23]);
    assert!(matches!(deliver(&mut c, &rec), Err(TlsError::CryptoError)));
}

#[test]
fn counters_advance_per_record() {
    let mut c = opened(1024, 200);
    let r0 = {
        c.write(&[1]).unwrap();
        c.flush_request().unwrap()
    };
    assert_eq!(r0.nonce, compute_nonce(&keys(3).iv, 0));
    let sealed = seal(&r0.nonce, &r0.plaintext);
    c.flush(&sealed).unwrap();
    c.write(&[2]).unwrap();
    let r1 = c.flush_request().unwrap();
    assert_eq!(r1.nonce, compute_nonce(&keys(3).iv, 1));
    assert_eq!(r1.key, vec![3u8; 16]);
    assert_eq!(r1.aad, vec![23, 3, 3, 0, 18]);
    assert_eq!(r1.plaintext, vec![2, 23]);
    deliver(&mut c, &peer_record(0, &[9, 23])).unwrap();
    let mut out = [0u8; 4];
    assert_eq!(c.read(&mut out).unwrap(), 1);
    deliver(&mut c, &peer_record(1, &[8, 23])).unwrap();
    assert_eq!(c.read(&mut out).unwrap(), 1);
    assert_eq!(out[0], 8);
    // A replayed record fails.
    assert!(matches!(deliver(&mut c, &peer_record(1, &[8, 23])), Err(TlsError::CryptoError)));
}

#[test]
fn new_session_ticket_is_passed_over() {
    let mut c = opened(1024, 200);
    deliver(&mut c, &peer_record(0, &[4, 0, 0, 1, 0, 22])).unwrap();
    assert!(c.needs_record());
    assert!(matches!(deliver(&mut c, &peer_record(1, &[1, 0, 0, 0, 22])), Err(TlsError::UnexpectedMessage)));
}

#[test]
fn unexpected_outer_and_inner_types() {
    let mut c = opened(1024, 200);
    assert!(matches!(c.receive_record(ContentType::ChangeCipherSpec, Some(&[1])), Err(TlsError::UnexpectedMessage)));
    let mut d = opened(1024, 200);
    assert!(matches!(deliver(&mut d, &peer_record(0, &[0, 0, 0])), Err(TlsError::DecodeError)));
    let mut e = opened(4, 200);
    assert!(matches!(deliver(&mut e, &peer_record(0, &[1, 2, 3, 4, 5, 23])), Err(TlsError::RecordOverflow)));
}

#[test]
fn padding_is_stripped() {
    let mut c = opened(1024, 200);
    deliver(&mut c, &peer_record(0, &[7, 8, 23, 0, 0, 0])).unwrap();
    assert_eq!(c.read_buffered().unwrap(), &[7, 8]);
    c.consume(1);
    assert_eq!(c.read_buffered().unwrap(), &[8]);
}

#[test]
fn operations_before_open() {
    let mut c = TlsConnection::new(vec![0u8; 64], vec![0u8; 200]);
    assert!(!c.is_opened());
    assert!(matches!(c.write(&[1]), Err(TlsError::MissingHandshake)));
    let mut out = [0u8; 4];
    assert!(matches!(c.read(&mut out), Err(TlsError::MissingHandshake)));
    assert!(matches!(c.read_buffered(), Err(TlsError::MissingHandshake)));
    assert!(!c.needs_record());
    let hs = Handshake::new();
    assert!(matches!(c.open(&hs, keys(3), keys(4)), Err(TlsError::MissingHandshake)));
    assert!(c.close_request().is_none());
    assert_eq!(c.close(None).unwrap(), 7);
    assert_eq!(&c.write_buffer()[..7], &[21, 3, 3, 0, 2, 1, 0]);
}

#[test]
fn open_twice_fails() {
    let mut c = opened(64, 200);
    let hs = finished_handshake();
    assert!(matches!(c.open(&hs, keys(5), keys(6)), Err(TlsError::InternalError)));
}

#[test]
fn close_when_opened() {
    let mut c = opened(64, 200);
    let req = c.close_request().unwrap();
    assert_eq!(req.plaintext, vec![1, 0, 21]);
    assert_eq!(req.aad, vec![23, 3, 3, 0, 19]);
    assert!(matches!(c.close(Some(&[0u8; 3])), Err(TlsError::InternalError)));
    let sealed = seal(&req.nonce, &req.plaintext);
    assert_eq!(c.close(Some(&sealed)).unwrap(), 24);
    assert_eq!(&c.write_buffer()[..5], &[23, 3, 3, 0, 19]);
    assert!(c.is_closed());
    assert!(matches!(deliver(&mut c, &peer_record(0, &[1, 23])), Err(TlsError::ConnectionClosed)));
    assert!(matches!(c.write(&[1]), Err(TlsError::ConnectionClosed)));
}

#[test]
fn flush_rejects_wrong_length() {
    let mut c = opened(64, 200);
    assert!(matches!(c.flush(&[0u8; 17]), Err(TlsError::InternalError)));
    c.write(&[1, 2]).unwrap();
    assert!(matches!(c.flush(&[0u8; 17]), Err(TlsError::InternalError)));
    assert_eq!(c.flush(&[0u8; 19]).unwrap(), 24);
}

#[test]
fn handshake_records_are_framed() {
    let mut c = TlsConnection::new(vec![0u8; 64], vec![0u8; 200]);
    let ch = msg(1, &[0u8; 10]);
    assert!(c.seal_request(ContentType::Handshake, &ch).is_none());
    assert_eq!(c.write_plaintext_record(ContentType::Handshake, &ch).unwrap(), 19);
    assert_eq!(&c.write_buffer()[..5], &[22, 3, 3, 0, 14]);
    assert_eq!(&c.write_buffer()[5..19], &ch[..]);
    assert!(matches!(c.write_plaintext_record(ContentType::Handshake, &[0u8; 196]), Err(TlsError::RecordOverflow)));
    c.install_handshake_keys(keys(1), keys(2));
    let fin = msg(20, &[5u8; 32]);
    let req = c.seal_request(ContentType::Handshake, &fin).unwrap();
    assert_eq!(req.nonce, compute_nonce(&keys(1).iv, 0));
    assert_eq!(req.plaintext.last(), Some(&22));
    let sealed = seal(&req.nonce, &req.plaintext);
    assert!(matches!(c.finish_record(fin.len() + 1, &sealed), Err(TlsError::InternalError)));
    assert_eq!(c.finish_record(fin.len(), &sealed).unwrap(), 5 + 36 + 1 + 16);
    assert_eq!(&c.write_buffer()[..5], &[23, 3, 3, 0, 53]);
    let req2 = c.seal_request(ContentType::Handshake, &fin).unwrap();
    assert_eq!(req2.nonce, compute_nonce(&keys(1).iv, 1));
}

#[test]
fn fatal_alerts() {
    assert_eq!(alert_description(TlsError::UnexpectedMessage), Some(10));
    assert_eq!(alert_description(TlsError::RecordOverflow), Some(22));
    assert_eq!(alert_description(TlsError::DecodeError), Some(50));
    assert_eq!(alert_description(TlsError::CryptoError), Some(51));
    assert_eq!(alert_description(TlsError::InternalError), Some(80));
    assert_eq!(alert_description(TlsError::ConnectionClosed), None);
    let unopened = TlsConnection::new(vec![0u8; 8], vec![0u8; 200]);
    assert!(unopened.alert_request(TlsError::DecodeError).is_none());
    let mut c = opened(64, 200);
    assert!(c.alert_request(TlsError::ConnectionClosed).is_none());
    let req = c.alert_request(TlsError::CryptoError).unwrap();
    assert_eq!(req.plaintext, vec![2, 51, 21]);
    let sealed = seal(&req.nonce, &req.plaintext);
    assert_eq!(c.finish_record(2, &sealed).unwrap(), 24);
}

#[test]
fn plaintext_alert_before_keys() {
    let mut c = TlsConnection::new(vec![0u8; 8], vec![0u8; 200]);
    assert_eq!(c.plaintext_alert(TlsError::ConnectionClosed), None);
    assert_eq!(c.plaintext_alert(TlsError::UnexpectedMessage), Some(7));
    assert_eq!(&c.write_buffer()[..7], &[21, 3, 3, 0, 2, 2, 10]);
    c.install_handshake_keys(keys(1), keys(2));
    assert_eq!(c.plaintext_alert(TlsError::DecodeError), None);
    assert!(c.alert_request(TlsError::DecodeError).is_some());
}

#[test]
fn no_writes_after_failure() {
    let mut c = opened(1024, 200);
    c.write(&[1, 2]).unwrap();
    assert!(matches!(c.receive_record(ContentType::ApplicationData, None), Err(TlsError::CryptoError)));
    assert!(matches!(c.write(&[3]), Err(TlsError::CryptoError)));
    assert!(c.flush_request().is_none());
}

#[test]
fn handshake_records_advance_read_counter() {
    let mut c = TlsConnection::new(vec![0u8; 64], vec![0u8; 200]);
    let (ct, m) = c.receive_handshake_record(ContentType::Handshake, Some(&[2, 0, 0, 0])).unwrap();
    assert_eq!(ct, ContentType::Handshake);
    assert_eq!(m, vec![2, 0, 0, 0]);
    assert!(matches!(c.receive_handshake_record(ContentType::ApplicationData, Some(&[8, 22])), Err(TlsError::UnexpectedMessage)));
    c.install_handshake_keys(keys(1), keys(2));
    let header = embedded_tls::record::RecordHeader { content_type: ContentType::ApplicationData, version: 0x0303, length: 0 };
    for k in 0..3u64 {
        let req = c.open_request(&header).unwrap();
        assert_eq!(req.nonce, compute_nonce(&keys(2).iv, k));
        let (ct, m) = c.receive_handshake_record(ContentType::ApplicationData, Some(&[8, 0, 0, 0, 22, 0])).unwrap();
        assert_eq!(ct, ContentType::Handshake);
        assert_eq!(m, vec![8, 0, 0, 0]);
    }
    assert!(matches!(c.receive_handshake_record(ContentType::ApplicationData, None), Err(TlsError::CryptoError)));
    let hs = finished_handshake();
    c.open(&hs, keys(3), keys(4)).unwrap();
    assert!(matches!(c.receive_handshake_record(ContentType::Handshake, Some(&[1])), Err(TlsError::UnexpectedMessage)));
}

#[test]
fn no_flush_after_close() {
    let mut c = opened(64, 200);
    c.write(&[1, 2, 3]).unwrap();
    let req = c.close_request().unwrap();
    let sealed = seal(&req.nonce, &req.plaintext);
    c.close(Some(&sealed)).unwrap();
    assert!(c.flush_request().is_none());
    assert!(matches!(c.flush(&[0u8; 20]), Err(TlsError::ConnectionClosed)));
    let mut d = opened(64, 200);
    assert!(d.failed().is_none());
    assert!(matches!(d.receive_record(ContentType::ApplicationData, None), Err(TlsError::CryptoError)));
    assert!(matches!(d.failed(), Some(TlsError::CryptoError)));
    assert!(matches!(d.flush(&[0u8; 20]), Err(TlsError::CryptoError)));
}
