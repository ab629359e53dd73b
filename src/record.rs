use vstd::prelude::*;

use crate::error::TlsError;

verus! {

/// Length of a record header: content type, legacy version, length.
pub const RECORD_HEADER_LEN: usize = 5;

/// Largest record payload accepted: 2^14 + 256.
pub const MAX_RECORD_LEN: usize = 16640;

/// The record layer's legacy version field, 0x0303.
pub const LEGACY_VERSION: u16 = 0x0303;

/// Outer and inner content types of the record layer.
#[derive(Clone, Copy, Debug, PartialEq, Eq, Structural)]
pub enum ContentType {
    ChangeCipherSpec,
    Alert,
    Handshake,
    ApplicationData,
}

impl ContentType {
    pub open spec fn spec_to_u8(self) -> u8 {
        match self {
            ContentType::ChangeCipherSpec => 20,
            ContentType::Alert => 21,
            ContentType::Handshake => 22,
            ContentType::ApplicationData => 23,
        }
    }

    pub open spec fn spec_of_u8(b: u8) -> Option<ContentType> {
        if b == 20 {
            Some(ContentType::ChangeCipherSpec)
        } else if b == 21 {
            Some(ContentType::Alert)
        } else if b == 22 {
            Some(ContentType::Handshake)
        } else if b == 23 {
            Some(ContentType::ApplicationData)
        } else {
            None
        }
    }

    /// The wire value of this content type.
    pub fn to_u8(self) -> (r: u8)
        ensures
            r == self.spec_to_u8(),
    {
        match self {
            ContentType::ChangeCipherSpec => 20,
            ContentType::Alert => 21,
            ContentType::Handshake => 22,
            ContentType::ApplicationData => 23,
        }
    }

    /// The content type with wire value `b`, if there is one.
    pub fn of_u8(b: u8) -> (r: Option<ContentType>)
        ensures
            r == Self::spec_of_u8(b),
    {
        if b == 20 {
            Some(ContentType::ChangeCipherSpec)
        } else if b == 21 {
            Some(ContentType::Alert)
        } else if b == 22 {
            Some(ContentType::Handshake)
        } else if b == 23 {
            Some(ContentType::ApplicationData)
        } else {
            None
        }
    }

    pub proof fn lemma_of_to(self)
        ensures
            Self::spec_of_u8(self.spec_to_u8()) == Some(self),
    {
    }
}

/// A parsed record header.
#[derive(Clone, Copy, Debug, PartialEq, Eq, Structural)]
pub struct RecordHeader {
    pub content_type: ContentType,
    pub version: u16,
    pub length: u16,
}

/// The five header bytes of a record of type `ct` carrying `len` payload bytes.
pub open spec fn header_bytes(ct: ContentType, len: u16) -> Seq<u8> {
    seq![ct.spec_to_u8(), 3u8, 3u8, (len / 256) as u8, (len % 256) as u8]
}

/// Whether `version` is acceptable; the first record from the server may
/// carry an older legacy value.
pub open spec fn version_accepted(version: u16, initial: bool) -> bool {
    version == LEGACY_VERSION || (initial && (version == 0x0301 || version == 0x0302))
}

/// What parsing the header at the start of `s` gives.
pub open spec fn parse_header_spec(s: Seq<u8>, initial: bool) -> Result<RecordHeader, TlsError> {
    if s.len() < RECORD_HEADER_LEN {
        Err(TlsError::DecodeError)
    } else {
        let version = (s[1] as int * 256 + s[2] as int) as u16;
        let length = (s[3] as int * 256 + s[4] as int) as u16;
        match ContentType::spec_of_u8(s[0]) {
            None => Err(TlsError::DecodeError),
            Some(ct) => if !version_accepted(version, initial) {
                Err(TlsError::DecodeError)
            } else if length as int > MAX_RECORD_LEN {
                Err(TlsError::RecordOverflow)
            } else {
                Ok(RecordHeader { content_type: ct, version, length })
            },
        }
    }
}

/// Parses a record header from the first five bytes of `buf`. `initial` admits
/// the legacy versions 0x0301 and 0x0302 that a first ServerHello may carry.
pub fn parse_record_header(buf: &[u8], initial: bool) -> (r: Result<RecordHeader, TlsError>)
    ensures
        r == parse_header_spec(buf@, initial),
{
    if buf.len() < RECORD_HEADER_LEN {
        return Err(TlsError::DecodeError);
    }
    let version: u16 = (buf[1] as u16) * 256 + buf[2] as u16;
    let length: u16 = (buf[3] as u16) * 256 + buf[4] as u16;
    match ContentType::of_u8(buf[0]) {
        None => Err(TlsError::DecodeError),
        Some(ct) => {
            if !(version == LEGACY_VERSION || (initial && (version == 0x0301 || version == 0x0302))) {
                Err(TlsError::DecodeError)
            } else if length as usize > MAX_RECORD_LEN {
                Err(TlsError::RecordOverflow)
            } else {
                Ok(RecordHeader { content_type: ct, version, length })
            }
        },
    }
}

/// Encodes the header of a record of type `ct` carrying `len` payload bytes.
pub fn encode_record_header(ct: ContentType, len: u16) -> (r: Vec<u8>)
    ensures
        r@ == header_bytes(ct, len),
{
    let v = vec![ct.to_u8(), 3u8, 3u8, (len / 256) as u8, (len % 256) as u8];
    assert(v@ =~= header_bytes(ct, len));
    v
}

/// A header that this library writes parses back to the same type and length.
pub proof fn lemma_header_round_trip(ct: ContentType, len: u16)
    requires
        len as int <= MAX_RECORD_LEN,
    ensures
        parse_header_spec(header_bytes(ct, len), false) == Ok::<RecordHeader, TlsError>(
            RecordHeader { content_type: ct, version: LEGACY_VERSION, length: len },
        ),
{
    ct.lemma_of_to();
    assert((len / 256) as u8 as int * 256 + (len % 256) as u8 as int == len as int);
}

/// Index of the last non-zero byte of `s`, or -1 when every byte is zero.
pub open spec fn last_nonzero(s: Seq<u8>) -> int
    decreases s.len(),
{
    if s.len() == 0 {
        -1
    } else if s.last() != 0 {
        s.len() - 1
    } else {
        last_nonzero(s.drop_last())
    }
}

pub proof fn lemma_last_nonzero_bound(s: Seq<u8>)
    ensures
        -1 <= last_nonzero(s) < s.len(),
    decreases s.len(),
{
    if s.len() > 0 && s.last() == 0 {
        lemma_last_nonzero_bound(s.drop_last());
    }
}

/// What decoding a decrypted record body gives: the inner content type and
/// the length of the message before it, with the zero padding stripped.
pub open spec fn inner_plaintext_spec(s: Seq<u8>) -> Result<(ContentType, usize), TlsError> {
    let i = last_nonzero(s);
    if i < 0 {
        Err(TlsError::DecodeError)
    } else {
        match ContentType::spec_of_u8(s[i]) {
            None => Err(TlsError::DecodeError),
            Some(ct) => Ok((ct, i as usize)),
        }
    }
}

/// The body of a record before sealing: the message, then its content type.
pub open spec fn inner_plaintext_bytes(msg: Seq<u8>, ct: ContentType) -> Seq<u8> {
    msg.push(ct.spec_to_u8())
}

/// Splits a decrypted record body into its inner content type and the length
/// of its message: trailing zeros are padding and the last non-zero byte is
/// the type.
pub fn decode_inner_plaintext(buf: &[u8]) -> (r: Result<(ContentType, usize), TlsError>)
    ensures
        r == inner_plaintext_spec(buf@),
{
    let mut i: usize = buf.len();
    assert(buf@.subrange(0, i as int) =~= buf@);
    while i > 0 && buf[i - 1] == 0
        invariant
            i <= buf@.len(),
            last_nonzero(buf@) == last_nonzero(buf@.subrange(0, i as int)),
        decreases i,
    {
        assert(buf@.subrange(0, i as int).drop_last() =~= buf@.subrange(0, i - 1));
        i = i - 1;
    }
    if i == 0 {
        assert(buf@.subrange(0, 0) =~= Seq::<u8>::empty());
        return Err(TlsError::DecodeError);
    }
    assert(last_nonzero(buf@.subrange(0, i as int)) == i - 1);
    match ContentType::of_u8(buf[i - 1]) {
        None => Err(TlsError::DecodeError),
        Some(ct) => Ok((ct, i - 1)),
    }
}

/// Appends the content type byte to `msg`, giving the body to be sealed.
pub fn encode_inner_plaintext(msg: &[u8], ct: ContentType) -> (r: Vec<u8>)
    ensures
        r@ == inner_plaintext_bytes(msg@, ct),
{
    let mut v: Vec<u8> = Vec::new();
    v.extend_from_slice(msg);
    v.push(ct.to_u8());
    v
}

/// A body built by `encode_inner_plaintext` decodes to the same content type,
/// and its message is the one it was built from.
pub proof fn lemma_inner_plaintext_round_trip(msg: Seq<u8>, ct: ContentType)
    requires
        msg.len() < usize::MAX,
    ensures
        inner_plaintext_spec(inner_plaintext_bytes(msg, ct)) == Ok::<(ContentType, usize), TlsError>(
            (ct, msg.len() as usize),
        ),
        inner_plaintext_bytes(msg, ct).subrange(0, msg.len() as int) == msg,
{
    ct.lemma_of_to();
    assert(inner_plaintext_bytes(msg, ct).subrange(0, msg.len() as int) =~= msg);
}

} // verus!
