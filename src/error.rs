use vstd::prelude::*;

verus! {

/// Declares the transport error kind of `embedded_io`, carried through the
/// library unchanged inside `TlsError::Io`.
#[verifier::external_type_specification]
#[verifier::external_body]
pub struct ExErrorKind(embedded_io::ErrorKind);

/// The ways a TLS operation can fail.
#[derive(Clone, Copy, Debug)]
pub enum TlsError {
    /// The transport failed.
    Io(embedded_io::ErrorKind),
    /// A user operation came before the handshake completed.
    MissingHandshake,
    /// A record or handshake field is malformed.
    DecodeError,
    /// A record is longer than the protocol allows.
    RecordOverflow,
    /// An AEAD open, a Finished MAC or a signature check failed.
    CryptoError,
    /// A message arrived out of protocol order.
    UnexpectedMessage,
    /// The peer sent CloseNotify.
    ConnectionClosed,
    /// A fatal alert arrived or an internal limit was reached.
    InternalError,
}

} // verus!
