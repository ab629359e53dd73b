use vstd::prelude::*;

use crate::error::TlsError;
use crate::record::ContentType;
use crate::messages::{check_extension_block, extension_block_ok};

verus! {

/// Handshake message types.
pub const CLIENT_HELLO: u8 = 1;
pub const SERVER_HELLO: u8 = 2;
pub const ENCRYPTED_EXTENSIONS: u8 = 8;
pub const CERTIFICATE: u8 = 11;
pub const CERTIFICATE_REQUEST: u8 = 13;
pub const CERTIFICATE_VERIFY: u8 = 15;
pub const FINISHED: u8 = 20;
pub const MESSAGE_HASH: u8 = 254;

/// Stages of the client handshake.
#[derive(Clone, Copy, Debug, PartialEq, Eq, Structural)]
pub enum State {
    ClientHello,
    ServerHello,
    ServerVerify,
    ClientCert,
    ClientFinished,
    ApplicationData,
}

/// Which server message `ServerVerify` waits for next.
#[derive(Clone, Copy, Debug, PartialEq, Eq, Structural)]
pub enum VerifyStep {
    EncryptedExtensions,
    CertificateOrRequest,
    Certificate,
    CertificateVerify,
    Finished,
}

/// The abstract state of a handshake.
pub struct HandshakeView {
    pub state: State,
    pub step: VerifyStep,
    pub hrr_seen: bool,
    pub cert_requested: bool,
    pub transcript: Seq<u8>,
}

/// The handshake state before anything is sent.
pub open spec fn initial_view() -> HandshakeView {
    HandshakeView {
        state: State::ClientHello,
        step: VerifyStep::EncryptedExtensions,
        hrr_seen: false,
        cert_requested: false,
        transcript: Seq::empty(),
    }
}

/// Length of the first handshake message at the start of `buf`, header
/// included, when the whole message is there; `DecodeError` otherwise.
pub open spec fn first_message_len_spec(buf: Seq<u8>) -> Result<usize, TlsError> {
    if buf.len() < 4 {
        Err(TlsError::DecodeError)
    } else {
        let n = 4 + buf[1] as int * 65536 + buf[2] as int * 256 + buf[3] as int;
        if n <= buf.len() {
            Ok(n as usize)
        } else {
            Err(TlsError::DecodeError)
        }
    }
}

/// Finds where the first handshake message in a record body ends, so that
/// a record carrying several messages can be taken apart.
pub fn first_message_len(buf: &[u8]) -> (r: Result<usize, TlsError>)
    ensures
        r == first_message_len_spec(buf@),
{
    if buf.len() < 4 {
        return Err(TlsError::DecodeError);
    }
    let n: usize = 4 + (buf[1] as usize) * 65536 + (buf[2] as usize) * 256 + buf[3] as usize;
    if n <= buf.len() {
        Ok(n)
    } else {
        Err(TlsError::DecodeError)
    }
}

/// The type of a handshake message whose 24-bit length matches its body;
/// `DecodeError` otherwise.
pub open spec fn message_type_spec(msg: Seq<u8>) -> Result<u8, TlsError> {
    if msg.len() >= 4 && msg[1] as int * 65536 + msg[2] as int * 256 + msg[3] as int == msg.len()
        - 4 {
        Ok(msg[0])
    } else {
        Err(TlsError::DecodeError)
    }
}

/// The `random` value by which a ServerHello is a HelloRetryRequest.
pub open spec fn hrr_random() -> Seq<u8> {
    seq![
        0xCFu8, 0x21u8, 0xADu8, 0x74u8, 0xE5u8, 0x9Au8, 0x61u8, 0x11u8,
        0xBEu8, 0x1Du8, 0x8Cu8, 0x02u8, 0x1Eu8, 0x65u8, 0xB8u8, 0x91u8,
        0xC2u8, 0xA2u8, 0x11u8, 0x16u8, 0x7Au8, 0xBBu8, 0x8Cu8, 0x5Eu8,
        0x07u8, 0x9Eu8, 0x09u8, 0xE2u8, 0xC8u8, 0xA8u8, 0x33u8, 0x9Cu8,
    ]
}

/// Whether a ServerHello message carries the HelloRetryRequest random,
/// which follows the 4-byte header and the 2-byte legacy version.
pub open spec fn is_hrr_spec(msg: Seq<u8>) -> bool {
    msg.len() >= 38 && msg.subrange(6, 38) == hrr_random()
}

/// The synthetic message that replaces ClientHello1 in the transcript after
/// a HelloRetryRequest: type 254, length, then the hash of ClientHello1.
pub open spec fn message_hash_bytes(ch1_hash: Seq<u8>) -> Seq<u8> {
    seq![MESSAGE_HASH, 0u8, 0u8, ch1_hash.len() as u8] + ch1_hash
}

/// Sending a ClientHello (the first, or the second after a retry request).
pub open spec fn client_hello_spec(v: HandshakeView, msg: Seq<u8>) -> Result<HandshakeView, TlsError> {
    if v.state != State::ClientHello {
        Err(TlsError::UnexpectedMessage)
    } else if message_type_spec(msg) != Ok::<u8, TlsError>(CLIENT_HELLO) {
        Err(TlsError::DecodeError)
    } else {
        Ok(HandshakeView { state: State::ServerHello, transcript: v.transcript + msg, ..v })
    }
}

/// Receiving a ServerHello that is not a retry request.
pub open spec fn server_hello_spec(v: HandshakeView, msg: Seq<u8>) -> Result<HandshakeView, TlsError> {
    match message_type_spec(msg) {
        Err(e) => Err(e),
        Ok(t) => if v.state != State::ServerHello || t != SERVER_HELLO || is_hrr_spec(msg) {
            Err(TlsError::UnexpectedMessage)
        } else {
            Ok(
                HandshakeView {
                    state: State::ServerVerify,
                    step: VerifyStep::EncryptedExtensions,
                    transcript: v.transcript + msg,
                    ..v
                },
            )
        },
    }
}

/// Receiving a HelloRetryRequest, with the hash of ClientHello1.
pub open spec fn hello_retry_spec(v: HandshakeView, msg: Seq<u8>, ch1_hash: Seq<u8>) -> Result<
    HandshakeView,
    TlsError,
> {
    match message_type_spec(msg) {
        Err(e) => Err(e),
        Ok(t) => if v.state != State::ServerHello || t != SERVER_HELLO || !is_hrr_spec(msg)
            || v.hrr_seen {
            Err(TlsError::UnexpectedMessage)
        } else {
            Ok(
                HandshakeView {
                    state: State::ClientHello,
                    hrr_seen: true,
                    transcript: message_hash_bytes(ch1_hash) + msg,
                    ..v
                },
            )
        },
    }
}

/// Receiving one of the server's encrypted handshake messages; `verified`
/// is the verifier's verdict on the chain of a Certificate, the outcome of
/// the signature check of a CertificateVerify, or of the MAC check of a
/// Finished.
pub open spec fn server_message_spec(v: HandshakeView, msg: Seq<u8>, verified: bool) -> Result<
    HandshakeView,
    TlsError,
> {
    match message_type_spec(msg) {
        Err(e) => Err(e),
        Ok(t) => if v.state != State::ServerVerify {
            Err(TlsError::UnexpectedMessage)
        } else {
            let t2 = v.transcript + msg;
            match v.step {
                VerifyStep::EncryptedExtensions => if t != ENCRYPTED_EXTENSIONS {
                    Err(TlsError::UnexpectedMessage)
                } else if !extension_block_ok(msg) {
                    Err(TlsError::DecodeError)
                } else {
                    Ok(HandshakeView { step: VerifyStep::CertificateOrRequest, transcript: t2, ..v })
                },
                VerifyStep::CertificateOrRequest => if t == CERTIFICATE_REQUEST {
                    Ok(
                        HandshakeView {
                            step: VerifyStep::Certificate,
                            cert_requested: true,
                            transcript: t2,
                            ..v
                        },
                    )
                } else if t == CERTIFICATE {
                    if !verified {
                        Err(TlsError::CryptoError)
                    } else {
                        Ok(HandshakeView { step: VerifyStep::CertificateVerify, transcript: t2, ..v })
                    }
                } else {
                    Err(TlsError::UnexpectedMessage)
                },
                VerifyStep::Certificate => if t != CERTIFICATE {
                    Err(TlsError::UnexpectedMessage)
                } else if !verified {
                    Err(TlsError::CryptoError)
                } else {
                    Ok(HandshakeView { step: VerifyStep::CertificateVerify, transcript: t2, ..v })
                },
                VerifyStep::CertificateVerify => if t != CERTIFICATE_VERIFY {
                    Err(TlsError::UnexpectedMessage)
                } else if !verified {
                    Err(TlsError::CryptoError)
                } else {
                    Ok(HandshakeView { step: VerifyStep::Finished, transcript: t2, ..v })
                },
                VerifyStep::Finished => if t != FINISHED {
                    Err(TlsError::UnexpectedMessage)
                } else if !verified {
                    Err(TlsError::CryptoError)
                } else {
                    Ok(
                        HandshakeView {
                            state: if v.cert_requested {
                                State::ClientCert
                            } else {
                                State::ClientFinished
                            },
                            transcript: t2,
                            ..v
                        },
                    )
                },
            }
        },
    }
}

/// Sending the client's Certificate and CertificateVerify, as one run of bytes.
pub open spec fn client_cert_spec(v: HandshakeView, msgs: Seq<u8>) -> Result<HandshakeView, TlsError> {
    if v.state != State::ClientCert {
        Err(TlsError::UnexpectedMessage)
    } else {
        Ok(HandshakeView { state: State::ClientFinished, transcript: v.transcript + msgs, ..v })
    }
}

/// Sending the client's Finished.
pub open spec fn client_finished_spec(v: HandshakeView, msg: Seq<u8>) -> Result<HandshakeView, TlsError> {
    if v.state != State::ClientFinished {
        Err(TlsError::UnexpectedMessage)
    } else if message_type_spec(msg) != Ok::<u8, TlsError>(FINISHED) {
        Err(TlsError::DecodeError)
    } else {
        Ok(HandshakeView { state: State::ApplicationData, transcript: v.transcript + msg, ..v })
    }
}

/// Whether an inbound ChangeCipherSpec may be ignored: only after the first
/// ClientHello went out and before the handshake completes.
pub open spec fn ccs_allowed_spec(v: HandshakeView) -> bool {
    (v.state != State::ClientHello || v.hrr_seen) && v.state != State::ApplicationData
}

/// The type of the handshake message `msg`, once its length field is checked.
pub fn handshake_message_type(msg: &[u8]) -> (r: Result<u8, TlsError>)
    ensures
        r == message_type_spec(msg@),
{
    if msg.len() < 4 {
        return Err(TlsError::DecodeError);
    }
    let body_len: usize = (msg[1] as usize) * 65536 + (msg[2] as usize) * 256 + msg[3] as usize;
    if body_len == msg.len() - 4 {
        Ok(msg[0])
    } else {
        Err(TlsError::DecodeError)
    }
}

/// Whether the ServerHello `msg` is a HelloRetryRequest.
pub fn is_hello_retry_request(msg: &[u8]) -> (r: bool)
    ensures
        r == is_hrr_spec(msg@),
{
    if msg.len() < 38 {
        return false;
    }
    let magic: Vec<u8> = vec![
        0xCFu8, 0x21u8, 0xADu8, 0x74u8, 0xE5u8, 0x9Au8, 0x61u8, 0x11u8,
        0xBEu8, 0x1Du8, 0x8Cu8, 0x02u8, 0x1Eu8, 0x65u8, 0xB8u8, 0x91u8,
        0xC2u8, 0xA2u8, 0x11u8, 0x16u8, 0x7Au8, 0xBBu8, 0x8Cu8, 0x5Eu8,
        0x07u8, 0x9Eu8, 0x09u8, 0xE2u8, 0xC8u8, 0xA8u8, 0x33u8, 0x9Cu8,
    ];
    assert(magic@ =~= hrr_random());
    let mut i: usize = 0;
    while i < 32
        invariant
            msg@.len() >= 38,
            magic@ == hrr_random(),
            i <= 32,
            forall|j: int| 0 <= j < i ==> msg@[6 + j] == magic@[j],
        decreases 32 - i,
    {
        if msg[6 + i] != magic[i] {
            assert(msg@.subrange(6, 38)[i as int] != hrr_random()[i as int]);
            return false;
        }
        i = i + 1;
    }
    assert(msg@.subrange(6, 38) =~= hrr_random());
    true
}

/// The client handshake driver: which message comes next, and the running
/// transcript of every handshake message so far.
pub struct Handshake {
    state: State,
    step: VerifyStep,
    hrr_seen: bool,
    cert_requested: bool,
    transcript: Vec<u8>,
}

impl View for Handshake {
    type V = HandshakeView;

    closed spec fn view(&self) -> HandshakeView {
        HandshakeView {
            state: self.state,
            step: self.step,
            hrr_seen: self.hrr_seen,
            cert_requested: self.cert_requested,
            transcript: self.transcript@,
        }
    }
}

/// A step of the driver returned `r` and moved from `before` to `after` as
/// `out` prescribes: to its state on success, nowhere on failure.
pub open spec fn stepped(
    r: Result<(), TlsError>,
    before: HandshakeView,
    after: HandshakeView,
    out: Result<HandshakeView, TlsError>,
) -> bool {
    match out {
        Ok(v) => r is Ok && after == v,
        Err(e) => r == Err::<(), TlsError>(e) && after == before,
    }
}

impl Handshake {
    /// A handshake about to send its first ClientHello.
    pub fn new() -> (r: Handshake)
        ensures
            r@ == initial_view(),
    {
        let h = Handshake {
            state: State::ClientHello,
            step: VerifyStep::EncryptedExtensions,
            hrr_seen: false,
            cert_requested: false,
            transcript: Vec::new(),
        };
        assert(h@.transcript =~= Seq::<u8>::empty());
        h
    }

    /// The current stage.
    pub fn state(&self) -> (r: State)
        ensures
            r == self@.state,
    {
        self.state
    }

    /// Every handshake message so far, in order, as the transcript hash takes
    /// them.
    pub fn transcript(&self) -> (r: &[u8])
        ensures
            r@ == self@.transcript,
    {
        self.transcript.as_slice()
    }

    fn append(&mut self, msg: &[u8])
        ensures
            final(self)@ == (HandshakeView { transcript: old(self)@.transcript + msg@, ..old(self)@ }),
    {
        self.transcript.extend_from_slice(msg);
        assert(self.transcript@ =~= old(self).transcript@ + msg@);
    }

    /// Records the ClientHello `msg` as sent.
    pub fn client_hello_sent(&mut self, msg: &[u8]) -> (r: Result<(), TlsError>)
        ensures
            stepped(r, old(self)@, final(self)@, client_hello_spec(old(self)@, msg@)),
    {
        if self.state != State::ClientHello {
            return Err(TlsError::UnexpectedMessage);
        }
        match handshake_message_type(msg) {
            Ok(t) => {
                if t != CLIENT_HELLO {
                    return Err(TlsError::DecodeError);
                }
            },
            Err(_) => {
                return Err(TlsError::DecodeError);
            },
        }
        self.append(msg);
        self.state = State::ServerHello;
        Ok(())
    }

    /// Takes in a ServerHello that is not a retry request.
    pub fn server_hello_received(&mut self, msg: &[u8]) -> (r: Result<(), TlsError>)
        ensures
            stepped(r, old(self)@, final(self)@, server_hello_spec(old(self)@, msg@)),
    {
        let t = match handshake_message_type(msg) {
            Err(e) => {
                return Err(e);
            },
            Ok(t) => t,
        };
        if self.state != State::ServerHello || t != SERVER_HELLO || is_hello_retry_request(msg) {
            return Err(TlsError::UnexpectedMessage);
        }
        self.append(msg);
        self.state = State::ServerVerify;
        self.step = VerifyStep::EncryptedExtensions;
        Ok(())
    }

    /// Takes in a HelloRetryRequest: the transcript restarts from the
    /// synthetic message carrying `ch1_hash`, the hash of the first
    /// ClientHello, followed by `msg`, and a second ClientHello is due. Only
    /// one retry is allowed.
    pub fn hello_retry_received(&mut self, msg: &[u8], ch1_hash: &[u8]) -> (r: Result<(), TlsError>)
        requires
            ch1_hash@.len() <= 255,
        ensures
            stepped(r, old(self)@, final(self)@, hello_retry_spec(old(self)@, msg@, ch1_hash@)),
    {
        let t = match handshake_message_type(msg) {
            Err(e) => {
                return Err(e);
            },
            Ok(t) => t,
        };
        if self.state != State::ServerHello || t != SERVER_HELLO || !is_hello_retry_request(msg)
            || self.hrr_seen {
            return Err(TlsError::UnexpectedMessage);
        }
        let mut transcript: Vec<u8> = vec![MESSAGE_HASH, 0u8, 0u8, ch1_hash.len() as u8];
        transcript.extend_from_slice(ch1_hash);
        transcript.extend_from_slice(msg);
        assert(transcript@ =~= message_hash_bytes(ch1_hash@) + msg@);
        self.transcript = transcript;
        self.state = State::ClientHello;
        self.hrr_seen = true;
        Ok(())
    }

    /// Takes in one of the server's encrypted handshake messages.
    /// `verified` carries the verifier's verdict on a Certificate's chain,
    /// the outcome of the signature check of a CertificateVerify, or of the
    /// MAC check of a Finished, the last two made over the transcript before
    /// `msg`.
    pub fn server_message_received(&mut self, msg: &[u8], verified: bool) -> (r: Result<(), TlsError>)
        ensures
            stepped(r, old(self)@, final(self)@, server_message_spec(old(self)@, msg@, verified)),
    {
        let t = match handshake_message_type(msg) {
            Err(e) => {
                return Err(e);
            },
            Ok(t) => t,
        };
        if self.state != State::ServerVerify {
            return Err(TlsError::UnexpectedMessage);
        }
        match self.step {
            VerifyStep::EncryptedExtensions => {
                if t != ENCRYPTED_EXTENSIONS {
                    return Err(TlsError::UnexpectedMessage);
                }
                if !check_extension_block(msg) {
                    return Err(TlsError::DecodeError);
                }
                self.step = VerifyStep::CertificateOrRequest;
            },
            VerifyStep::CertificateOrRequest => {
                if t == CERTIFICATE_REQUEST {
                    self.step = VerifyStep::Certificate;
                    self.cert_requested = true;
                } else if t == CERTIFICATE {
                    if !verified {
                        return Err(TlsError::CryptoError);
                    }
                    self.step = VerifyStep::CertificateVerify;
                } else {
                    return Err(TlsError::UnexpectedMessage);
                }
            },
            VerifyStep::Certificate => {
                if t != CERTIFICATE {
                    return Err(TlsError::UnexpectedMessage);
                }
                if !verified {
                    return Err(TlsError::CryptoError);
                }
                self.step = VerifyStep::CertificateVerify;
            },
            VerifyStep::CertificateVerify => {
                if t != CERTIFICATE_VERIFY {
                    return Err(TlsError::UnexpectedMessage);
                }
                if !verified {
                    return Err(TlsError::CryptoError);
                }
                self.step = VerifyStep::Finished;
            },
            VerifyStep::Finished => {
                if t != FINISHED {
                    return Err(TlsError::UnexpectedMessage);
                }
                if !verified {
                    return Err(TlsError::CryptoError);
                }
                self.state = if self.cert_requested {
                    State::ClientCert
                } else {
                    State::ClientFinished
                };
            },
        }
        self.append(msg);
        Ok(())
    }

    /// Records the client's Certificate and CertificateVerify as sent.
    pub fn client_certificate_sent(&mut self, msgs: &[u8]) -> (r: Result<(), TlsError>)
        ensures
            stepped(r, old(self)@, final(self)@, client_cert_spec(old(self)@, msgs@)),
    {
        if self.state != State::ClientCert {
            return Err(TlsError::UnexpectedMessage);
        }
        self.append(msgs);
        self.state = State::ClientFinished;
        Ok(())
    }

    /// Records the client's Finished as sent; the handshake is then complete.
    pub fn client_finished_sent(&mut self, msg: &[u8]) -> (r: Result<(), TlsError>)
        ensures
            stepped(r, old(self)@, final(self)@, client_finished_spec(old(self)@, msg@)),
    {
        if self.state != State::ClientFinished {
            return Err(TlsError::UnexpectedMessage);
        }
        match handshake_message_type(msg) {
            Ok(t) => {
                if t != FINISHED {
                    return Err(TlsError::DecodeError);
                }
            },
            Err(_) => {
                return Err(TlsError::DecodeError);
            },
        }
        self.append(msg);
        self.state = State::ApplicationData;
        Ok(())
    }

    /// Checks an inbound ChangeCipherSpec: ignored while it is legal,
    /// `UnexpectedMessage` otherwise.
    pub fn change_cipher_spec_received(&self) -> (r: Result<(), TlsError>)
        ensures
            ccs_allowed_spec(self@) ==> r is Ok,
            !ccs_allowed_spec(self@) ==> r == Err::<(), TlsError>(TlsError::UnexpectedMessage),
    {
        if (self.state != State::ClientHello || self.hrr_seen) && self.state
            != State::ApplicationData {
            Ok(())
        } else {
            Err(TlsError::UnexpectedMessage)
        }
    }
}

/// What a server handshake message needs before it is taken in.
#[derive(Clone, Copy, Debug, PartialEq, Eq, Structural)]
pub enum ServerCheck {
    /// A ServerHello: the key exchange follows.
    ServerHello,
    /// A HelloRetryRequest: a second ClientHello follows.
    HelloRetry,
    /// A Certificate: the verifier judges the chain.
    Certificate,
    /// A CertificateVerify: the signature is checked.
    Signature,
    /// A Finished: the MAC is checked.
    Finished,
    /// Nothing beyond the driver's own checks.
    Plain,
}

/// Whether the inner content type of a record received during the
/// handshake is taken in: `Ok(true)` for handshake messages while the
/// server's flight is due, `Ok(false)` for a ChangeCipherSpec that is
/// passed over, an error otherwise (an alert from the server is fatal).
pub open spec fn handshake_record_spec(v: HandshakeView, ct: ContentType) -> Result<bool, TlsError> {
    match ct {
        ContentType::Handshake => if v.state == State::ServerHello || v.state == State::ServerVerify {
            Ok(true)
        } else {
            Err(TlsError::UnexpectedMessage)
        },
        ContentType::ChangeCipherSpec => if ccs_allowed_spec(v) {
            Ok(false)
        } else {
            Err(TlsError::UnexpectedMessage)
        },
        ContentType::Alert => Err(TlsError::InternalError),
        ContentType::ApplicationData => Err(TlsError::UnexpectedMessage),
    }
}

/// Which check the server message `msg` goes to in state `v`.
pub open spec fn server_check_spec(v: HandshakeView, msg: Seq<u8>) -> Result<ServerCheck, TlsError> {
    match message_type_spec(msg) {
        Err(e) => Err(e),
        Ok(t) => if v.state == State::ServerHello {
            if t != SERVER_HELLO {
                Err(TlsError::UnexpectedMessage)
            } else if is_hrr_spec(msg) {
                Ok(ServerCheck::HelloRetry)
            } else {
                Ok(ServerCheck::ServerHello)
            }
        } else if v.state == State::ServerVerify {
            if t == CERTIFICATE {
                Ok(ServerCheck::Certificate)
            } else if t == CERTIFICATE_VERIFY {
                Ok(ServerCheck::Signature)
            } else if t == FINISHED {
                Ok(ServerCheck::Finished)
            } else {
                Ok(ServerCheck::Plain)
            }
        } else {
            Err(TlsError::UnexpectedMessage)
        },
    }
}

impl Handshake {
    /// Decides what becomes of a record of inner type `ct` received during
    /// the handshake.
    pub fn handshake_record(&self, ct: ContentType) -> (r: Result<bool, TlsError>)
        ensures
            r == handshake_record_spec(self@, ct),
    {
        match ct {
            ContentType::Handshake => {
                if self.state == State::ServerHello || self.state == State::ServerVerify {
                    Ok(true)
                } else {
                    Err(TlsError::UnexpectedMessage)
                }
            },
            ContentType::ChangeCipherSpec => match self.change_cipher_spec_received() {
                Ok(()) => Ok(false),
                Err(e) => Err(e),
            },
            ContentType::Alert => Err(TlsError::InternalError),
            ContentType::ApplicationData => Err(TlsError::UnexpectedMessage),
        }
    }

    /// Decides which check the server message `msg` needs before it is
    /// taken in.
    pub fn server_check(&self, msg: &[u8]) -> (r: Result<ServerCheck, TlsError>)
        ensures
            r == server_check_spec(self@, msg@),
    {
        let t = match handshake_message_type(msg) {
            Err(e) => {
                return Err(e);
            },
            Ok(t) => t,
        };
        if self.state == State::ServerHello {
            if t != SERVER_HELLO {
                Err(TlsError::UnexpectedMessage)
            } else if is_hello_retry_request(msg) {
                Ok(ServerCheck::HelloRetry)
            } else {
                Ok(ServerCheck::ServerHello)
            }
        } else if self.state == State::ServerVerify {
            if t == CERTIFICATE {
                Ok(ServerCheck::Certificate)
            } else if t == CERTIFICATE_VERIFY {
                Ok(ServerCheck::Signature)
            } else if t == FINISHED {
                Ok(ServerCheck::Finished)
            } else {
                Ok(ServerCheck::Plain)
            }
        } else {
            Err(TlsError::UnexpectedMessage)
        }
    }
}

/// The transcript is exactly the handshake messages in order: a full
/// handshake of given messages always ends in the same state with the same
/// transcript, and so with the same derived secrets and Finished MACs.
pub proof fn lemma_handshake_transcript(
    ch: Seq<u8>,
    sh: Seq<u8>,
    ee: Seq<u8>,
    cert: Seq<u8>,
    cv: Seq<u8>,
    fin: Seq<u8>,
    cfin: Seq<u8>,
)
    requires
        message_type_spec(ch) == Ok::<u8, TlsError>(CLIENT_HELLO),
        message_type_spec(sh) == Ok::<u8, TlsError>(SERVER_HELLO),
        !is_hrr_spec(sh),
        message_type_spec(ee) == Ok::<u8, TlsError>(ENCRYPTED_EXTENSIONS),
        extension_block_ok(ee),
        message_type_spec(cert) == Ok::<u8, TlsError>(CERTIFICATE),
        message_type_spec(cv) == Ok::<u8, TlsError>(CERTIFICATE_VERIFY),
        message_type_spec(fin) == Ok::<u8, TlsError>(FINISHED),
        message_type_spec(cfin) == Ok::<u8, TlsError>(FINISHED),
    ensures
        ({
            let v1 = client_hello_spec(initial_view(), ch);
            let v2 = server_hello_spec(v1->Ok_0, sh);
            let v3 = server_message_spec(v2->Ok_0, ee, true);
            let v4 = server_message_spec(v3->Ok_0, cert, true);
            let v5 = server_message_spec(v4->Ok_0, cv, true);
            let v6 = server_message_spec(v5->Ok_0, fin, true);
            let v7 = client_finished_spec(v6->Ok_0, cfin);
            &&& v1 is Ok && v2 is Ok && v3 is Ok && v4 is Ok && v5 is Ok && v6 is Ok && v7 is Ok
            &&& v7->Ok_0.state == State::ApplicationData
            &&& v7->Ok_0.transcript == ch + sh + ee + cert + cv + fin + cfin
        }),
{
    assert(Seq::<u8>::empty() + ch =~= ch);
}

/// After a HelloRetryRequest the transcript is the synthetic message for
/// ClientHello1's hash, then the retry request, then ClientHello2 and the
/// ServerHello; ClientHello1 itself no longer appears.
pub proof fn lemma_hello_retry_transcript(
    ch1: Seq<u8>,
    ch1_hash: Seq<u8>,
    hrr: Seq<u8>,
    ch2: Seq<u8>,
    sh: Seq<u8>,
)
    requires
        message_type_spec(ch1) == Ok::<u8, TlsError>(CLIENT_HELLO),
        message_type_spec(hrr) == Ok::<u8, TlsError>(SERVER_HELLO),
        is_hrr_spec(hrr),
        message_type_spec(ch2) == Ok::<u8, TlsError>(CLIENT_HELLO),
        message_type_spec(sh) == Ok::<u8, TlsError>(SERVER_HELLO),
        !is_hrr_spec(sh),
    ensures
        ({
            let v1 = client_hello_spec(initial_view(), ch1);
            let v2 = hello_retry_spec(v1->Ok_0, hrr, ch1_hash);
            let v3 = client_hello_spec(v2->Ok_0, ch2);
            let v4 = server_hello_spec(v3->Ok_0, sh);
            &&& v1 is Ok && v2 is Ok && v3 is Ok && v4 is Ok
            &&& v4->Ok_0.state == State::ServerVerify
            &&& v4->Ok_0.transcript == message_hash_bytes(ch1_hash) + hrr + ch2 + sh
        }),
{
}

/// A second HelloRetryRequest is refused.
pub proof fn lemma_single_retry(v: HandshakeView, hrr: Seq<u8>, ch1_hash: Seq<u8>)
    requires
        v.hrr_seen,
    ensures
        hello_retry_spec(v, hrr, ch1_hash) is Err,
{
}

} // verus!
