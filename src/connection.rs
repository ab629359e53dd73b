use vstd::prelude::*;

use crate::error::TlsError;
use crate::handshake::{Handshake, State};
use crate::key_schedule::{KeySchedule, TrafficKeys, nonce_spec, AEAD_TAG_LEN};
use crate::record::{
    ContentType, RecordHeader, header_bytes, inner_plaintext_bytes, inner_plaintext_spec,
    decode_inner_plaintext, encode_inner_plaintext, encode_record_header, RECORD_HEADER_LEN,
    lemma_last_nonzero_bound,
};

verus! {

/// Space reserved in the write buffer for the record header, the inner
/// content type, the AEAD tag and padding slack.
pub const TLS_RECORD_OVERHEAD: usize = 128;

/// Largest plaintext carried by one record: 2^14.
pub const MAX_PLAINTEXT_LEN: usize = 16384;

/// Alert description of a CloseNotify.
pub const CLOSE_NOTIFY: u8 = 0;

/// Handshake message type of a NewSessionTicket.
pub const NEW_SESSION_TICKET: u8 = 4;

/// Cursor over the decrypted plaintext resident in the read buffer.
#[derive(Clone, Copy, Debug, PartialEq, Eq, Structural)]
pub struct DecryptedBufferInfo {
    pub offset: usize,
    pub len: usize,
    pub consumed: usize,
}

impl DecryptedBufferInfo {
    /// Whether every decrypted byte has been handed out.
    pub fn is_empty(&self) -> (r: bool)
        ensures
            r == (self.consumed == self.len),
    {
        self.consumed == self.len
    }
}

/// What the AEAD must seal for one outbound record.
pub struct SealRequest {
    pub key: Vec<u8>,
    pub nonce: Vec<u8>,
    pub aad: Vec<u8>,
    pub plaintext: Vec<u8>,
}

/// What the AEAD needs to open one inbound record.
pub struct OpenRequest {
    pub key: Vec<u8>,
    pub nonce: Vec<u8>,
    pub aad: Vec<u8>,
}

/// Length of a sealed body whose plaintext has `n` bytes.
pub open spec fn sealed_len(n: int) -> int {
    n + AEAD_TAG_LEN
}

/// The seal request for inner plaintext `inner` under `keys` and `counter`.
pub open spec fn seal_request_spec(r: SealRequest, keys: TrafficKeys, counter: u64, inner: Seq<u8>) -> bool {
    &&& r.key@ == keys.key@
    &&& r.nonce@ == nonce_spec(keys.iv@, counter)
    &&& r.aad@ == header_bytes(ContentType::ApplicationData, sealed_len(inner.len() as int) as u16)
    &&& r.plaintext@ == inner
}

/// What an inbound record does once its body has been opened (`None` when
/// the AEAD refused it): `Ok(Some(p))` delivers plaintext `p`, `Ok(None)`
/// passes over the record, `Err(e)` fails the connection.
pub open spec fn inbound_spec(ct: ContentType, body: Option<Seq<u8>>, cap: nat) -> Result<
    Option<Seq<u8>>,
    TlsError,
> {
    if ct != ContentType::ApplicationData {
        Err(TlsError::UnexpectedMessage)
    } else {
        match body {
            None => Err(TlsError::CryptoError),
            Some(b) => match inner_plaintext_spec(b) {
                Err(e) => Err(e),
                Ok((inner, n)) => match inner {
                    ContentType::ApplicationData => if n > cap {
                        Err(TlsError::RecordOverflow)
                    } else {
                        Ok(Some(b.subrange(0, n as int)))
                    },
                    ContentType::Alert => if n != 2 {
                        Err(TlsError::DecodeError)
                    } else if b[1] == CLOSE_NOTIFY {
                        Err(TlsError::ConnectionClosed)
                    } else {
                        Err(TlsError::InternalError)
                    },
                    ContentType::Handshake => if n >= 1 && b[0] == NEW_SESSION_TICKET {
                        Ok(None)
                    } else {
                        Err(TlsError::UnexpectedMessage)
                    },
                    ContentType::ChangeCipherSpec => Err(TlsError::UnexpectedMessage),
                },
            },
        }
    }
}

/// What a record received during the handshake yields: its inner content
/// type and message. A record of outer type ApplicationData is the AEAD's
/// output `body` (`None` when it refused the record) and needs read keys;
/// any other record travels in the clear and is passed on as it is.
pub open spec fn handshake_inbound_spec(ct: ContentType, body: Option<Seq<u8>>, keyed: bool) -> Result<
    (ContentType, Seq<u8>),
    TlsError,
> {
    match body {
        None => Err(TlsError::CryptoError),
        Some(b) => if ct == ContentType::ApplicationData {
            if !keyed {
                Err(TlsError::UnexpectedMessage)
            } else {
                match inner_plaintext_spec(b) {
                    Err(e) => Err(e),
                    Ok((inner, n)) => Ok((inner, b.subrange(0, n as int))),
                }
            }
        } else {
            Ok((ct, b))
        },
    }
}

/// The record-layer side of a TLS 1.3 client connection. The transport and
/// the AEAD stay with the caller: this type decides what is sealed, framed,
/// opened and delivered.
pub struct TlsConnection {
    opened: bool,
    closed: bool,
    failure: Option<TlsError>,
    key_schedule: KeySchedule,
    record_read_buf: Vec<u8>,
    record_write_buf: Vec<u8>,
    write_pos: usize,
    decrypted: DecryptedBufferInfo,
}

impl TlsConnection {
    /// Whether the handshake has completed.
    pub closed spec fn opened(&self) -> bool {
        self.opened
    }

    /// Whether a CloseNotify has been sent or received.
    pub closed spec fn closed(&self) -> bool {
        self.closed
    }

    /// The error that ended the connection, if one did.
    pub closed spec fn failure(&self) -> Option<TlsError> {
        self.failure
    }

    pub closed spec fn key_schedule(&self) -> KeySchedule {
        self.key_schedule
    }

    /// Plaintext written but not yet sealed.
    pub closed spec fn pending(&self) -> Seq<u8> {
        self.record_write_buf@.subrange(0, self.write_pos as int)
    }

    /// Decrypted plaintext not yet handed to the user.
    pub closed spec fn unread(&self) -> Seq<u8> {
        self.record_read_buf@.subrange(
            self.decrypted.offset + self.decrypted.consumed,
            self.decrypted.offset + self.decrypted.len,
        )
    }

    /// Bytes of the write buffer.
    pub closed spec fn write_buf(&self) -> Seq<u8> {
        self.record_write_buf@
    }

    /// Length of the read buffer.
    pub closed spec fn read_capacity(&self) -> nat {
        self.record_read_buf@.len()
    }

    /// Plaintext bytes that one record takes from the write buffer: the
    /// buffer less the record overhead, and at most 2^14, the largest
    /// plaintext one record may carry.
    pub open spec fn max_block(&self) -> nat {
        let room = self.write_buf().len() - TLS_RECORD_OVERHEAD;
        if room < MAX_PLAINTEXT_LEN {
            room as nat
        } else {
            MAX_PLAINTEXT_LEN as nat
        }
    }

    pub closed spec fn wf(&self) -> bool {
        &&& self.record_write_buf@.len() > TLS_RECORD_OVERHEAD
        &&& self.write_pos <= self.max_block()
        &&& self.decrypted.consumed <= self.decrypted.len
        &&& self.decrypted.offset + self.decrypted.len <= self.record_read_buf@.len()
        &&& self.key_schedule.wf()
        &&& (self.opened ==> self.key_schedule.write_keys() is Some
            && self.key_schedule.read_keys() is Some)
        &&& (self.write_pos > 0 ==> self.opened)
        &&& (self.failure is Some ==> self.decrypted.consumed == self.decrypted.len)
    }

    /// What holds of every well-formed connection: the write buffer has room
    /// for the record overhead, the buffered plaintext fits one record, and
    /// the unread plaintext fits the read buffer.
    pub proof fn lemma_wf(&self)
        requires
            self.wf(),
        ensures
            self.write_buf().len() > TLS_RECORD_OVERHEAD,
            self.max_block() <= self.write_buf().len() - TLS_RECORD_OVERHEAD,
            self.pending().len() <= self.max_block(),
            self.unread().len() <= self.read_capacity(),
            self.failure() is Some ==> self.unread().len() == 0,
    {
    }

    /// A new, unopened connection over a read buffer and a write buffer.
    pub fn new(record_read_buf: Vec<u8>, record_write_buf: Vec<u8>) -> (r: TlsConnection)
        requires
            record_write_buf@.len() > TLS_RECORD_OVERHEAD,
        ensures
            r.wf(),
            !r.opened(),
            !r.closed(),
            r.failure() is None,
            r.pending().len() == 0,
            r.unread().len() == 0,
            r.read_capacity() == record_read_buf@.len(),
            r.write_buf() == record_write_buf@,
            r.key_schedule().write_keys() is None,
            r.key_schedule().read_keys() is None,
            !r.key_schedule().rotated(),
            r.key_schedule().write_counter() == 0,
            r.key_schedule().read_counter() == 0,
    {
        TlsConnection {
            opened: false,
            closed: false,
            failure: None,
            key_schedule: KeySchedule::new(),
            record_read_buf,
            record_write_buf,
            write_pos: 0,
            decrypted: DecryptedBufferInfo { offset: 0, len: 0, consumed: 0 },
        }
    }

    /// Plaintext bytes that one record takes from the write buffer: the
    /// buffer less the record overhead, at most 2^14.
    pub fn max_block_size(&self) -> (r: usize)
        requires
            self.wf(),
        ensures
            r == self.max_block(),
    {
        let room = self.record_write_buf.len() - TLS_RECORD_OVERHEAD;
        if room < MAX_PLAINTEXT_LEN {
            room
        } else {
            MAX_PLAINTEXT_LEN
        }
    }

    /// Buffers a prefix of `buf` for the next record and returns its length:
    /// as much as the record has room for. Fails before the handshake has
    /// completed and after a CloseNotify.
    pub fn write(&mut self, buf: &[u8]) -> (r: Result<usize, TlsError>)
        requires
            old(self).wf(),
        ensures
            final(self).wf(),
            final(self).write_buf().len() == old(self).write_buf().len(),
            !old(self).opened() ==> r == Err::<usize, TlsError>(TlsError::MissingHandshake)
                && *final(self) == *old(self),
            old(self).opened() && old(self).failure() is Some ==> r == Err::<usize, TlsError>(
                old(self).failure()->0) && *final(self) == *old(self),
            old(self).opened() && old(self).failure() is None && old(self).closed() ==> r == Err::<
                usize,
                TlsError,
            >(TlsError::ConnectionClosed) && *final(self) == *old(self),
            old(self).opened() && old(self).failure() is None && !old(self).closed() ==> {
                &&& r is Ok
                &&& r->Ok_0 == vstd::math::min(
                    buf@.len() as int,
                    old(self).max_block() - old(self).pending().len(),
                )
                &&& final(self).pending() == old(self).pending() + buf@.subrange(0, r->Ok_0 as int)
                &&& final(self).opened() == old(self).opened()
                &&& final(self).closed() == old(self).closed()
                &&& final(self).failure() == old(self).failure()
                &&& final(self).key_schedule() == old(self).key_schedule()
                &&& final(self).unread() == old(self).unread()
                &&& final(self).max_block() == old(self).max_block()
                &&& final(self).read_capacity() == old(self).read_capacity()
            },
    {
        if !self.opened {
            return Err(TlsError::MissingHandshake);
        }
        match self.failure {
            Some(e) => {
                return Err(e);
            },
            None => {},
        }
        if self.closed {
            return Err(TlsError::ConnectionClosed);
        }
        let max_block = self.max_block_size();
        let room = max_block - self.write_pos;
        let buffered: usize = if buf.len() < room { buf.len() } else { room };
        let start = self.write_pos;
        let ghost old_buf = self.record_write_buf@;
        let ghost s0 = *self;
        let mut i: usize = 0;
        while i < buffered
            invariant
                start == self.write_pos,
                self.opened == s0.opened,
                self.closed == s0.closed,
                self.failure == s0.failure,
                self.key_schedule == s0.key_schedule,
                self.record_read_buf == s0.record_read_buf,
                self.decrypted == s0.decrypted,
                start + buffered <= max_block,
                max_block == self.max_block(),
                buffered <= buf@.len(),
                i <= buffered,
                self.record_write_buf@.len() == old_buf.len(),
                max_block <= old_buf.len(),
                self.record_write_buf@.subrange(0, start as int) == old_buf.subrange(0, start as int),
                forall|j: int| 0 <= j < i ==> self.record_write_buf@[start + j] == buf@[j],
            decreases buffered - i,
        {
            self.record_write_buf[start + i] = buf[i];
            i = i + 1;
        }
        self.write_pos = start + buffered;
        assert(self.pending() =~= old_buf.subrange(0, start as int) + buf@.subrange(0, buffered as int));
        Ok(buffered)
    }

    /// Whether the buffered plaintext fills a record, so that it must be flushed.
    pub fn needs_flush(&self) -> (r: bool)
        requires
            self.wf(),
        ensures
            r == (self.pending().len() == self.max_block()),
    {
        self.write_pos == self.max_block_size()
    }

    /// What the AEAD must seal to carry `msg` as inner content type `ct`
    /// under the current write keys; `None` before any are installed.
    pub fn seal_request(&self, ct: ContentType, msg: &[u8]) -> (r: Option<SealRequest>)
        requires
            self.wf(),
            msg@.len() + 1 + AEAD_TAG_LEN <= u16::MAX,
        ensures
            self.key_schedule().write_keys() is None ==> r is None,
            self.key_schedule().write_keys() is Some ==> r is Some && seal_request_spec(
                r->0,
                self.key_schedule().write_keys()->0,
                self.key_schedule().write_counter(),
                inner_plaintext_bytes(msg@, ct),
            ),
    {
        match self.key_schedule.write_key() {
            None => None,
            Some(key) => {
                let nonce = self.key_schedule.write_nonce();
                let plaintext = encode_inner_plaintext(msg, ct);
                let aad = encode_record_header(
                    ContentType::ApplicationData,
                    (plaintext.len() + AEAD_TAG_LEN) as u16,
                );
                Some(SealRequest { key, nonce, aad, plaintext })
            },
        }
    }

    /// What the AEAD must seal to flush the buffered plaintext as one
    /// ApplicationData record; `None` when nothing is buffered.
    pub fn flush_request(&self) -> (r: Option<SealRequest>)
        requires
            self.wf(),
        ensures
            self.pending().len() == 0 || self.failure() is Some || self.closed() ==> r is None,
            self.pending().len() > 0 && self.failure() is None && !self.closed() ==> r is Some && seal_request_spec(
                r->0,
                self.key_schedule().write_keys()->0,
                self.key_schedule().write_counter(),
                inner_plaintext_bytes(self.pending(), ContentType::ApplicationData),
            ),
    {
        if self.write_pos == 0 || self.failure.is_some() || self.closed {
            return None;
        }
        let pending = vstd::slice::slice_subrange(self.record_write_buf.as_slice(), 0, self.write_pos);
        self.seal_request(ContentType::ApplicationData, pending)
    }
    /// Writes a sealed ApplicationData record, header then `sealed`, at the
    /// start of the write buffer and returns its length.
    fn place_record(&mut self, ct: ContentType, sealed: &[u8]) -> (r: usize)
        requires
            RECORD_HEADER_LEN + sealed@.len() <= old(self).record_write_buf@.len(),
            sealed@.len() <= u16::MAX,
        ensures
            r == RECORD_HEADER_LEN + sealed@.len(),
            final(self).record_write_buf@.len() == old(self).record_write_buf@.len(),
            final(self).record_write_buf@.subrange(0, r as int) == header_bytes(
                ct,
                sealed@.len() as u16,
            ) + sealed@,
            final(self).opened == old(self).opened,
            final(self).closed == old(self).closed,
            final(self).failure == old(self).failure,
            final(self).key_schedule == old(self).key_schedule,
            final(self).record_read_buf == old(self).record_read_buf,
            final(self).decrypted == old(self).decrypted,
            final(self).write_pos == old(self).write_pos,
    {
        let header = encode_record_header(ct, sealed.len() as u16);
        let total = RECORD_HEADER_LEN + sealed.len();
        let ghost s0 = *self;
        let ghost want = header@ + sealed@;
        let mut i: usize = 0;
        while i < total
            invariant
                total == RECORD_HEADER_LEN + sealed@.len(),
                total <= self.record_write_buf@.len(),
                header@.len() == RECORD_HEADER_LEN,
                want == header@ + sealed@,
                i <= total,
                self.record_write_buf@.len() == s0.record_write_buf@.len(),
                self.opened == s0.opened,
                self.closed == s0.closed,
                self.failure == s0.failure,
                self.key_schedule == s0.key_schedule,
                self.record_read_buf == s0.record_read_buf,
                self.decrypted == s0.decrypted,
                self.write_pos == s0.write_pos,
                forall|j: int| 0 <= j < i ==> self.record_write_buf@[j] == want[j],
            decreases total - i,
        {
            let b: u8 = if i < RECORD_HEADER_LEN { header[i] } else { sealed[i - RECORD_HEADER_LEN] };
            self.record_write_buf[i] = b;
            i = i + 1;
        }
        assert(self.record_write_buf@.subrange(0, total as int) =~= want);
        total
    }

    /// Frames the buffered plaintext, sealed by the AEAD as `flush_request`
    /// asked, as one ApplicationData record at the start of the write buffer,
    /// and returns the record's length. `sealed` must be the plaintext and its
    /// tag; the write counter advances and the buffer is emptied.
    pub fn flush(&mut self, sealed: &[u8]) -> (r: Result<usize, TlsError>)
        requires
            old(self).wf(),
        ensures
            final(self).wf(),
            final(self).write_buf().len() == old(self).write_buf().len(),
            old(self).failure() is Some ==> r == Err::<usize, TlsError>(old(self).failure()->0)
                && *final(self) == *old(self),
            old(self).failure() is None && old(self).closed() ==> r == Err::<usize, TlsError>(
                TlsError::ConnectionClosed) && *final(self) == *old(self),
            old(self).failure() is None && !old(self).closed() && (old(self).pending().len() == 0
                || sealed@.len() != sealed_len(old(self).pending().len() as int + 1) || old(
                self).key_schedule().write_counter() == u64::MAX) ==> r == Err::<usize, TlsError>(
                TlsError::InternalError) && *final(self) == *old(self),
            old(self).failure() is None && !old(self).closed() && old(self).pending().len() > 0
                && sealed@.len() == sealed_len(
                old(self).pending().len() as int + 1,
            ) && old(self).key_schedule().write_counter() < u64::MAX ==> {
                &&& r is Ok
                &&& r->Ok_0 == RECORD_HEADER_LEN + sealed@.len()
                &&& r->Ok_0 <= old(self).pending().len() + TLS_RECORD_OVERHEAD
                &&& r->Ok_0 <= final(self).write_buf().len()
                &&& final(self).write_buf().subrange(0, r->Ok_0 as int) == header_bytes(
                    ContentType::ApplicationData,
                    sealed@.len() as u16,
                ) + sealed@
                &&& final(self).pending().len() == 0
                &&& final(self).key_schedule().write_counter() == old(self).key_schedule().write_counter() + 1
                &&& final(self).key_schedule().write_keys() == old(self).key_schedule().write_keys()
                &&& final(self).key_schedule().read_keys() == old(self).key_schedule().read_keys()
                &&& final(self).key_schedule().read_counter() == old(self).key_schedule().read_counter()
                &&& final(self).opened() == old(self).opened()
                &&& final(self).closed() == old(self).closed()
                &&& final(self).failure() == old(self).failure()
                &&& final(self).unread() == old(self).unread()
                &&& final(self).max_block() == old(self).max_block()
            },
    {
        match self.failure {
            Some(e) => {
                return Err(e);
            },
            None => {},
        }
        if self.closed {
            return Err(TlsError::ConnectionClosed);
        }
        if self.write_pos == 0 || sealed.len() != self.write_pos + 1 + AEAD_TAG_LEN {
            return Err(TlsError::InternalError);
        }
        let ghost s0 = *self;
        match self.key_schedule.increment_write_counter() {
            Err(e) => {
                return Err(e);
            },
            Ok(()) => {},
        }
        let len = self.place_record(ContentType::ApplicationData, sealed);
        self.write_pos = 0;
        assert(self.max_block() == s0.max_block());
        Ok(len)
    }

    /// The plaintext of a CloseNotify alert: warning level, close_notify.
    pub open spec fn close_notify_alert() -> Seq<u8> {
        seq![1u8, CLOSE_NOTIFY]
    }

    /// What the AEAD must seal to send CloseNotify on an opened connection;
    /// `None` before the handshake has completed, when it goes in the clear.
    pub fn close_request(&self) -> (r: Option<SealRequest>)
        requires
            self.wf(),
        ensures
            !self.opened() ==> r is None,
            self.opened() ==> r is Some && seal_request_spec(
                r->0,
                self.key_schedule().write_keys()->0,
                self.key_schedule().write_counter(),
                inner_plaintext_bytes(Self::close_notify_alert(), ContentType::Alert),
            ),
    {
        if !self.opened {
            return None;
        }
        let alert: Vec<u8> = vec![1u8, CLOSE_NOTIFY];
        assert(alert@ =~= Self::close_notify_alert());
        self.seal_request(ContentType::Alert, alert.as_slice())
    }

    /// Frames CloseNotify at the start of the write buffer and returns the
    /// record's length: sealed as `close_request` asked on an opened
    /// connection, in the clear before. No application data goes out after
    /// it: plaintext still buffered is dropped, so flush before closing.
    pub fn close(&mut self, sealed: Option<&[u8]>) -> (r: Result<usize, TlsError>)
        requires
            old(self).wf(),
        ensures
            final(self).wf(),
            final(self).write_buf().len() == old(self).write_buf().len(),
            !old(self).opened() ==> {
                &&& r == Ok::<usize, TlsError>(7)
                &&& final(self).write_buf().subrange(0, 7) == header_bytes(ContentType::Alert, 2)
                    + Self::close_notify_alert()
                &&& final(self).closed()
                &&& final(self).opened() == old(self).opened()
                &&& final(self).pending().len() == 0
            },
            old(self).opened() && (sealed is None || sealed->0@.len() != sealed_len(3)
                || old(self).key_schedule().write_counter() == u64::MAX) ==> r == Err::<
                usize,
                TlsError,
            >(TlsError::InternalError) && *final(self) == *old(self),
            old(self).opened() && sealed is Some && sealed->0@.len() == sealed_len(3)
                && old(self).key_schedule().write_counter() < u64::MAX ==> {
                &&& r == Ok::<usize, TlsError>((RECORD_HEADER_LEN + sealed_len(3)) as usize)
                &&& final(self).write_buf().subrange(0, r->Ok_0 as int) == header_bytes(
                    ContentType::ApplicationData,
                    sealed_len(3) as u16,
                ) + sealed->0@
                &&& final(self).key_schedule().write_counter() == old(self).key_schedule().write_counter() + 1
                &&& final(self).closed()
                &&& final(self).opened() == old(self).opened()
                &&& final(self).pending().len() == 0
            },
    {
        if !self.opened {
            let rec: Vec<u8> = vec![21u8, 3u8, 3u8, 0u8, 2u8, 1u8, CLOSE_NOTIFY];
            let ghost s0 = *self;
            let mut i: usize = 0;
            while i < 7
                invariant
                    rec@ == seq![21u8, 3u8, 3u8, 0u8, 2u8, 1u8, CLOSE_NOTIFY],
                    i <= 7,
                    s0.wf(),
                    self.record_write_buf@.len() == s0.record_write_buf@.len(),
                    self.record_write_buf@.len() > TLS_RECORD_OVERHEAD,
                    self.opened == s0.opened,
                    self.closed == s0.closed,
                    self.failure == s0.failure,
                    self.key_schedule == s0.key_schedule,
                    self.record_read_buf == s0.record_read_buf,
                    self.decrypted == s0.decrypted,
                    self.write_pos == s0.write_pos,
                    forall|j: int| 0 <= j < i ==> self.record_write_buf@[j] == rec@[j],
                decreases 7 - i,
            {
                self.record_write_buf[i] = rec[i];
                i = i + 1;
            }
            self.closed = true;
            assert(self.record_write_buf@.subrange(0, 7) =~= header_bytes(ContentType::Alert, 2)
                + Self::close_notify_alert());
            assert(self.max_block() == s0.max_block());
            return Ok(7);
        }
        match sealed {
            None => Err(TlsError::InternalError),
            Some(body) => {
                if body.len() != 3 + AEAD_TAG_LEN {
                    return Err(TlsError::InternalError);
                }
                let ghost s0 = *self;
                match self.key_schedule.increment_write_counter() {
                    Err(e) => {
                        return Err(e);
                    },
                    Ok(()) => {},
                }
                let len = self.place_record(ContentType::ApplicationData, body);
                self.closed = true;
                self.write_pos = 0;
                assert(self.max_block() == s0.max_block());
                Ok(len)
            },
        }
    }

    /// Frames `msg` as a record in the clear, of type `ct`, at the start of
    /// the write buffer and returns the record's length; `RecordOverflow`
    /// when it does not fit one record or the buffer. Only the first
    /// ClientHello, before any keys exist, goes out this way.
    pub fn write_plaintext_record(&mut self, ct: ContentType, msg: &[u8]) -> (r: Result<
        usize,
        TlsError,
    >)
        requires
            old(self).wf(),
        ensures
            final(self).wf(),
            final(self).write_buf().len() == old(self).write_buf().len(),
            old(self).pending().len() > 0 ==> r == Err::<usize, TlsError>(
                TlsError::InternalError) && *final(self) == *old(self),
            old(self).pending().len() == 0 && (msg@.len() > MAX_PLAINTEXT_LEN || RECORD_HEADER_LEN
                + msg@.len() > old(self).write_buf().len()) ==> r == Err::<usize, TlsError>(
                TlsError::RecordOverflow) && *final(self) == *old(self),
            old(self).pending().len() == 0 && msg@.len() <= MAX_PLAINTEXT_LEN && RECORD_HEADER_LEN
                + msg@.len() <= old(self).write_buf().len() ==> {
                &&& r == Ok::<usize, TlsError>((RECORD_HEADER_LEN + msg@.len()) as usize)
                &&& final(self).write_buf().subrange(0, r->Ok_0 as int) == header_bytes(
                    ct,
                    msg@.len() as u16,
                ) + msg@
                &&& final(self).key_schedule() == old(self).key_schedule()
                &&& final(self).opened() == old(self).opened()
                &&& final(self).closed() == old(self).closed()
                &&& final(self).failure() == old(self).failure()
                &&& final(self).pending() == old(self).pending()
                &&& final(self).unread() == old(self).unread()
            },
    {
        if self.write_pos > 0 {
            return Err(TlsError::InternalError);
        }
        if msg.len() > MAX_PLAINTEXT_LEN || RECORD_HEADER_LEN + msg.len() > self.record_write_buf.len() {
            return Err(TlsError::RecordOverflow);
        }
        let ghost s0 = *self;
        let len = self.place_record(ct, msg);
        assert(self.max_block() == s0.max_block());
        Ok(len)
    }

    /// Frames a message of `msg_len` bytes (a handshake message or an alert),
    /// sealed by the AEAD as `seal_request` asked, as a record at the start
    /// of the write buffer, and returns the record's length. The write
    /// counter advances.
    pub fn finish_record(&mut self, msg_len: usize, sealed: &[u8]) -> (r: Result<
        usize,
        TlsError,
    >)
        requires
            old(self).wf(),
        ensures
            final(self).wf(),
            final(self).write_buf().len() == old(self).write_buf().len(),
            old(self).pending().len() > 0 || sealed@.len() != sealed_len(msg_len + 1)
                || RECORD_HEADER_LEN + sealed@.len() > old(self).write_buf().len()
                || sealed@.len() > u16::MAX || old(self).key_schedule().write_counter()
                == u64::MAX ==> r == Err::<usize, TlsError>(TlsError::InternalError)
                && *final(self) == *old(self),
            !(old(self).pending().len() > 0 || sealed@.len() != sealed_len(msg_len + 1)
                || RECORD_HEADER_LEN + sealed@.len() > old(self).write_buf().len()
                || sealed@.len() > u16::MAX || old(self).key_schedule().write_counter()
                == u64::MAX) ==> {
                &&& r == Ok::<usize, TlsError>((RECORD_HEADER_LEN + sealed@.len()) as usize)
                &&& final(self).write_buf().subrange(0, r->Ok_0 as int) == header_bytes(
                    ContentType::ApplicationData,
                    sealed@.len() as u16,
                ) + sealed@
                &&& final(self).key_schedule().write_counter() == old(self).key_schedule().write_counter() + 1
                &&& final(self).key_schedule().write_keys() == old(self).key_schedule().write_keys()
                &&& final(self).key_schedule().read_keys() == old(self).key_schedule().read_keys()
                &&& final(self).key_schedule().read_counter() == old(self).key_schedule().read_counter()
                &&& final(self).opened() == old(self).opened()
                &&& final(self).closed() == old(self).closed()
                &&& final(self).failure() == old(self).failure()
                &&& final(self).unread() == old(self).unread()
            },
    {
        if self.write_pos > 0 || msg_len >= usize::MAX - 17 || sealed.len() != msg_len + 1
            + AEAD_TAG_LEN || sealed.len() > 65535 || RECORD_HEADER_LEN + sealed.len()
            > self.record_write_buf.len() {
            return Err(TlsError::InternalError);
        }
        let ghost s0 = *self;
        match self.key_schedule.increment_write_counter() {
            Err(e) => {
                return Err(e);
            },
            Ok(()) => {},
        }
        let len = self.place_record(ContentType::ApplicationData, sealed);
        assert(self.max_block() == s0.max_block());
        Ok(len)
    }

    /// The bytes of the write buffer, where `flush` and `close`
    /// put the record to send.
    pub fn write_buffer(&self) -> (r: &[u8])
        ensures
            r@ == self.write_buf(),
    {
        self.record_write_buf.as_slice()
    }
    /// What the AEAD needs to open the record whose header is `header`;
    /// `None` before any read keys are installed.
    pub fn open_request(&self, header: &RecordHeader) -> (r: Option<OpenRequest>)
        requires
            self.wf(),
        ensures
            self.key_schedule().read_keys() is None ==> r is None,
            self.key_schedule().read_keys() is Some ==> {
                &&& r is Some
                &&& r->0.key@ == self.key_schedule().read_keys()->0.key@
                &&& r->0.nonce@ == nonce_spec(
                    self.key_schedule().read_keys()->0.iv@,
                    self.key_schedule().read_counter(),
                )
                &&& r->0.aad@ == header_bytes(header.content_type, header.length)
            },
    {
        match self.key_schedule.read_key() {
            None => None,
            Some(key) => {
                let nonce = self.key_schedule.read_nonce();
                let aad = encode_record_header(header.content_type, header.length);
                Some(OpenRequest { key, nonce, aad })
            },
        }
    }

    /// Takes in one record during the handshake, before the connection is
    /// opened: of outer type `ct`, and for an encrypted record the AEAD's
    /// output `body` under the nonce of `open_request`. Every record the
    /// AEAD opened advances the read counter by one, so that the next one
    /// is opened under the next nonce; the counter never wraps.
    pub fn receive_handshake_record(&mut self, ct: ContentType, body: Option<&[u8]>) -> (r: Result<
        (ContentType, Vec<u8>),
        TlsError,
    >)
        requires
            old(self).wf(),
        ensures
            final(self).wf(),
            final(self).write_buf().len() == old(self).write_buf().len(),
            old(self).opened() ==> r is Err && r->Err_0 == TlsError::UnexpectedMessage && *final(
                self) == *old(self),
            !old(self).opened() ==> {
                let keyed = old(self).key_schedule().read_keys() is Some;
                let opened_body = ct == ContentType::ApplicationData && body is Some && keyed;
                let out = handshake_inbound_spec(
                    ct,
                    match body {
                        Some(b) => Some(b@),
                        None => None,
                    },
                    keyed,
                );
                &&& opened_body && old(self).key_schedule().read_counter() == u64::MAX ==> r is Err
                    && r->Err_0 == TlsError::InternalError && *final(self) == *old(self)
                &&& !(opened_body && old(self).key_schedule().read_counter() == u64::MAX) ==> {
                    &&& (out matches Ok((inner, m)) ==> r is Ok && r->Ok_0.0 == inner && r->Ok_0.1@
                        == m)
                    &&& (out is Err ==> r is Err && r->Err_0 == out->Err_0)
                    &&& final(self).key_schedule().read_counter() == if opened_body {
                        old(self).key_schedule().read_counter() + 1
                    } else {
                        old(self).key_schedule().read_counter() as int
                    }
                    &&& final(self).key_schedule().read_keys() == old(self).key_schedule().read_keys()
                    &&& final(self).key_schedule().write_keys() == old(self).key_schedule().write_keys()
                    &&& final(self).key_schedule().write_counter() == old(
                        self).key_schedule().write_counter()
                    &&& final(self).key_schedule().rotated() == old(self).key_schedule().rotated()
                    &&& final(self).opened() == old(self).opened()
                    &&& final(self).closed() == old(self).closed()
                    &&& final(self).failure() == old(self).failure()
                    &&& final(self).pending() == old(self).pending()
                    &&& final(self).unread() == old(self).unread()
                    &&& final(self).read_capacity() == old(self).read_capacity()
                    &&& final(self).max_block() == old(self).max_block()
                }
            },
    {
        if self.opened {
            return Err(TlsError::UnexpectedMessage);
        }
        let b = match body {
            None => {
                return Err(TlsError::CryptoError);
            },
            Some(b) => b,
        };
        if ct != ContentType::ApplicationData {
            let mut m: Vec<u8> = Vec::new();
            m.extend_from_slice(b);
            return Ok((ct, m));
        }
        if self.key_schedule.read_key().is_none() {
            return Err(TlsError::UnexpectedMessage);
        }
        let ghost s0 = *self;
        match self.key_schedule.increment_read_counter() {
            Err(e) => {
                return Err(e);
            },
            Ok(()) => {},
        }
        assert(self.max_block() == s0.max_block());
        match decode_inner_plaintext(b) {
            Err(e) => Err(e),
            Ok((inner, n)) => {
                proof {
                    lemma_last_nonzero_bound(b@);
                }
                let mut m: Vec<u8> = Vec::new();
                m.extend_from_slice(vstd::slice::slice_subrange(b, 0, n));
                Ok((inner, m))
            },
        }
    }

    /// Records `e` as the end of the connection and returns it.
    fn fail(&mut self, e: TlsError) -> (r: Result<(), TlsError>)
        requires
            old(self).wf(),
        ensures
            final(self).wf(),
            final(self).write_buf().len() == old(self).write_buf().len(),
            r == Err::<(), TlsError>(e),
            final(self).failure() == Some(e),
            final(self).unread().len() == 0,
            final(self).opened() == old(self).opened(),
            final(self).closed() == old(self).closed(),
            final(self).pending() == old(self).pending(),
            final(self).key_schedule() == old(self).key_schedule(),
            final(self).max_block() == old(self).max_block(),
            final(self).read_capacity() == old(self).read_capacity(),
    {
        self.failure = Some(e);
        self.decrypted = DecryptedBufferInfo { offset: 0, len: 0, consumed: 0 };
        Err(e)
    }

    /// Takes in one inbound record of outer type `ct`, whose body the AEAD
    /// opened into `body` (`None` when it refused it). ApplicationData is
    /// delivered to the read side, a NewSessionTicket is passed over, and
    /// anything else ends the connection: CloseNotify with
    /// `ConnectionClosed`, any other alert with `InternalError`. Once the
    /// connection has ended every later call returns the same error, and
    /// after a CloseNotify has been sent no record is taken in.
    pub fn receive_record(&mut self, ct: ContentType, body: Option<&[u8]>) -> (r: Result<
        (),
        TlsError,
    >)
        requires
            old(self).wf(),
        ensures
            final(self).wf(),
            final(self).write_buf().len() == old(self).write_buf().len(),
            final(self).opened() == old(self).opened(),
            final(self).pending() == old(self).pending(),
            final(self).max_block() == old(self).max_block(),
            final(self).read_capacity() == old(self).read_capacity(),
            final(self).key_schedule().write_keys() == old(self).key_schedule().write_keys(),
            final(self).key_schedule().read_keys() == old(self).key_schedule().read_keys(),
            final(self).key_schedule().write_counter() == old(self).key_schedule().write_counter(),
            !old(self).opened() ==> r == Err::<(), TlsError>(TlsError::MissingHandshake)
                && *final(self) == *old(self),
            old(self).opened() && old(self).failure() is Some ==> r == Err::<(), TlsError>(
                old(self).failure()->0,
            ) && *final(self) == *old(self),
            old(self).opened() && old(self).failure() is None && old(self).closed() ==> r == Err::<
                (),
                TlsError,
            >(TlsError::ConnectionClosed) && *final(self) == *old(self),
            old(self).opened() && old(self).failure() is None && !old(self).closed() && old(
                self).unread().len() > 0 ==> r == Err::<(), TlsError>(TlsError::InternalError)
                && *final(self) == *old(self),
            old(self).opened() && old(self).failure() is None && !old(self).closed() && old(
                self).unread().len() == 0 ==> {
                let outcome = inbound_spec(
                    ct,
                    match body {
                        Some(b) => Some(b@),
                        None => None,
                    },
                    old(self).read_capacity(),
                );
                let opened_body = ct == ContentType::ApplicationData && body is Some;
                &&& !opened_body ==> final(self).key_schedule().read_counter() == old(
                    self).key_schedule().read_counter()
                &&& opened_body && old(self).key_schedule().read_counter() == u64::MAX ==> {
                    &&& r == Err::<(), TlsError>(TlsError::InternalError)
                    &&& final(self).failure() == Some(TlsError::InternalError)
                    &&& final(self).unread().len() == 0
                    &&& final(self).closed() == old(self).closed()
                }
                &&& !(opened_body && old(self).key_schedule().read_counter() == u64::MAX) ==> {
                    &&& opened_body ==> final(self).key_schedule().read_counter() == old(self).key_schedule().read_counter() + 1
                    &&& (outcome matches Ok(Some(p)) ==> r is Ok && final(self).unread() == p
                        && final(self).failure() is None)
                    &&& (outcome is Ok && outcome->Ok_0 is None ==> r is Ok
                        && final(self).unread().len() == 0 && final(self).failure() is None)
                    &&& (outcome is Err ==> r == Err::<(), TlsError>(outcome->Err_0)
                        && final(self).failure() == Some(outcome->Err_0) && final(self).unread().len() == 0)
                    &&& (outcome == Err::<Option<Seq<u8>>, TlsError>(TlsError::ConnectionClosed)
                        ==> final(self).closed())
                    &&& (outcome != Err::<Option<Seq<u8>>, TlsError>(TlsError::ConnectionClosed)
                        ==> final(self).closed() == old(self).closed())
                }
            },
    {
        if !self.opened {
            return Err(TlsError::MissingHandshake);
        }
        match self.failure {
            Some(e) => {
                return Err(e);
            },
            None => {},
        }
        if self.closed {
            return Err(TlsError::ConnectionClosed);
        }
        if !self.decrypted.is_empty() {
            return Err(TlsError::InternalError);
        }
        if ct != ContentType::ApplicationData {
            return self.fail(TlsError::UnexpectedMessage);
        }
        let b = match body {
            None => {
                return self.fail(TlsError::CryptoError);
            },
            Some(b) => b,
        };
        match self.key_schedule.increment_read_counter() {
            Err(e) => {
                return self.fail(e);
            },
            Ok(()) => {},
        }
        let (inner, n) = match decode_inner_plaintext(b) {
            Err(e) => {
                return self.fail(e);
            },
            Ok(v) => v,
        };
        proof {
            lemma_last_nonzero_bound(b@);
        }
        match inner {
            ContentType::ApplicationData => {
                if n > self.record_read_buf.len() {
                    return self.fail(TlsError::RecordOverflow);
                }
                let ghost s0 = *self;
                let mut i: usize = 0;
                while i < n
                    invariant
                        n <= b@.len(),
                        n <= self.record_read_buf@.len(),
                        i <= n,
                        s0.wf(),
                        self.record_read_buf@.len() == s0.record_read_buf@.len(),
                        self.opened == s0.opened,
                        self.closed == s0.closed,
                        self.failure == s0.failure,
                        self.key_schedule == s0.key_schedule,
                        self.record_write_buf == s0.record_write_buf,
                        self.decrypted == s0.decrypted,
                        self.write_pos == s0.write_pos,
                        forall|j: int| 0 <= j < i ==> self.record_read_buf@[j] == b@[j],
                    decreases n - i,
                {
                    self.record_read_buf[i] = b[i];
                    i = i + 1;
                }
                self.decrypted = DecryptedBufferInfo { offset: 0, len: n, consumed: 0 };
                assert(self.unread() =~= b@.subrange(0, n as int));
                assert(self.max_block() == s0.max_block());
                Ok(())
            },
            ContentType::Alert => {
                if n != 2 {
                    self.fail(TlsError::DecodeError)
                } else if b[1] == CLOSE_NOTIFY {
                    self.closed = true;
                    self.fail(TlsError::ConnectionClosed)
                } else {
                    self.fail(TlsError::InternalError)
                }
            },
            ContentType::Handshake => {
                if n >= 1 && b[0] == NEW_SESSION_TICKET {
                    Ok(())
                } else {
                    self.fail(TlsError::UnexpectedMessage)
                }
            },
            ContentType::ChangeCipherSpec => self.fail(TlsError::UnexpectedMessage),
        }
    }

    /// Whether a read must first pull another record from the transport:
    /// the connection is open and sound, and all decrypted plaintext has
    /// been handed out.
    pub fn needs_record(&self) -> (r: bool)
        requires
            self.wf(),
        ensures
            r == (self.opened() && self.failure() is None && self.unread().len() == 0),
    {
        self.opened && self.failure.is_none() && self.decrypted.is_empty()
    }

    /// The decrypted plaintext not yet handed out, read in place.
    pub fn read_buffered(&self) -> (r: Result<&[u8], TlsError>)
        requires
            self.wf(),
        ensures
            !self.opened() ==> r == Err::<&[u8], TlsError>(TlsError::MissingHandshake),
            self.opened() && self.failure() is Some ==> r == Err::<&[u8], TlsError>(
                self.failure()->0,
            ),
            self.opened() && self.failure() is None ==> r is Ok && r->Ok_0@ == self.unread(),
    {
        if !self.opened {
            return Err(TlsError::MissingHandshake);
        }
        let _cap = self.record_read_buf.len();
        match self.failure {
            Some(e) => Err(e),
            None => Ok(
                vstd::slice::slice_subrange(
                    self.record_read_buf.as_slice(),
                    self.decrypted.offset + self.decrypted.consumed,
                    self.decrypted.offset + self.decrypted.len,
                ),
            ),
        }
    }

    /// Marks the first `n` unread bytes as handed out.
    pub fn consume(&mut self, n: usize)
        requires
            old(self).wf(),
            n <= old(self).unread().len(),
        ensures
            final(self).wf(),
            final(self).write_buf().len() == old(self).write_buf().len(),
            final(self).unread() == old(self).unread().subrange(n as int, old(self).unread().len() as int),
            final(self).opened() == old(self).opened(),
            final(self).closed() == old(self).closed(),
            final(self).failure() == old(self).failure(),
            final(self).pending() == old(self).pending(),
            final(self).key_schedule() == old(self).key_schedule(),
            final(self).max_block() == old(self).max_block(),
            final(self).read_capacity() == old(self).read_capacity(),
    {
        self.decrypted.consumed = self.decrypted.consumed + n;
        assert(self.unread() =~= old(self).unread().subrange(n as int, old(self).unread().len() as int));
    }

    /// Copies as much unread plaintext as `buf` holds into it, in order, and
    /// returns how much.
    pub fn read(&mut self, buf: &mut [u8]) -> (r: Result<usize, TlsError>)
        requires
            old(self).wf(),
        ensures
            final(self).wf(),
            final(self).write_buf().len() == old(self).write_buf().len(),
            !old(self).opened() ==> r == Err::<usize, TlsError>(TlsError::MissingHandshake)
                && *final(self) == *old(self) && final(buf)@ == old(buf)@,
            old(self).opened() && old(self).failure() is Some ==> r == Err::<usize, TlsError>(
                old(self).failure()->0,
            ) && *final(self) == *old(self) && final(buf)@ == old(buf)@,
            old(self).opened() && old(self).failure() is None ==> {
                let n = vstd::math::min(old(buf)@.len() as int, old(self).unread().len() as int);
                &&& r == Ok::<usize, TlsError>(n as usize)
                &&& final(buf)@ == old(self).unread().subrange(0, n) + old(buf)@.subrange(
                    n,
                    old(buf)@.len() as int,
                )
                &&& final(self).unread() == old(self).unread().subrange(
                    n,
                    old(self).unread().len() as int,
                )
                &&& final(self).opened() == old(self).opened()
                &&& final(self).closed() == old(self).closed()
                &&& final(self).failure() == old(self).failure()
                &&& final(self).pending() == old(self).pending()
                &&& final(self).key_schedule() == old(self).key_schedule()
            },
    {
        if !self.opened {
            return Err(TlsError::MissingHandshake);
        }
        match self.failure {
            Some(e) => {
                return Err(e);
            },
            None => {},
        }
        let cap = self.record_read_buf.len();
        let start = self.decrypted.offset + self.decrypted.consumed;
        let avail = self.decrypted.len - self.decrypted.consumed;
        let n: usize = if buf.len() < avail { buf.len() } else { avail };
        let ghost unread0 = self.unread();
        let ghost buf0 = buf@;
        let mut i: usize = 0;
        while i < n
            invariant
                n <= buf@.len(),
                n <= unread0.len(),
                buf@.len() == buf0.len(),
                i <= n,
                start + avail <= self.record_read_buf@.len(),
                self.record_read_buf@.len() == cap,
                unread0 == self.record_read_buf@.subrange(start as int, start + avail),
                n <= avail,
                forall|j: int| 0 <= j < i ==> buf@[j] == unread0[j],
                forall|j: int| n <= j < buf0.len() ==> buf@[j] == buf0[j],
            decreases n - i,
        {
            buf[i] = self.record_read_buf[start + i];
            i = i + 1;
        }
        assert(buf@ =~= unread0.subrange(0, n as int) + buf0.subrange(n as int, buf0.len() as int));
        self.consume(n);
        Ok(n)
    }
    /// Installs the handshake traffic keys, under which the rest of the
    /// handshake is sealed and opened.
    pub fn install_handshake_keys(&mut self, client: TrafficKeys, server: TrafficKeys)
        requires
            old(self).wf(),
            client.wf(),
            server.wf(),
        ensures
            final(self).wf(),
            final(self).write_buf().len() == old(self).write_buf().len(),
            final(self).key_schedule().write_keys() == Some(client),
            final(self).key_schedule().read_keys() == Some(server),
            final(self).key_schedule().write_counter() == 0,
            final(self).key_schedule().read_counter() == 0,
            final(self).opened() == old(self).opened(),
            final(self).closed() == old(self).closed(),
            final(self).failure() == old(self).failure(),
            final(self).pending() == old(self).pending(),
            final(self).unread() == old(self).unread(),
            final(self).max_block() == old(self).max_block(),
            final(self).read_capacity() == old(self).read_capacity(),
    {
        self.key_schedule.install_handshake_keys(client, server);
    }

    /// Opens the connection once `handshake` has completed: the application
    /// traffic keys `client` and `server` replace the handshake keys, both
    /// counters restart, and reads and writes are allowed from then on.
    /// Fails with `MissingHandshake` while the handshake is unfinished, and
    /// with `InternalError` on a second call.
    pub fn open(&mut self, handshake: &Handshake, client: TrafficKeys, server: TrafficKeys) -> (r:
        Result<(), TlsError>)
        requires
            old(self).wf(),
            client.wf(),
            server.wf(),
        ensures
            final(self).wf(),
            final(self).write_buf().len() == old(self).write_buf().len(),
            handshake@.state != State::ApplicationData ==> r == Err::<(), TlsError>(
                TlsError::MissingHandshake,
            ) && *final(self) == *old(self),
            handshake@.state == State::ApplicationData && old(self).key_schedule().rotated() ==> r
                == Err::<(), TlsError>(TlsError::InternalError) && *final(self) == *old(self),
            handshake@.state == State::ApplicationData && !old(self).key_schedule().rotated() ==> {
                &&& r is Ok
                &&& final(self).opened()
                &&& final(self).key_schedule().rotated()
                &&& final(self).key_schedule().write_keys() == Some(client)
                &&& final(self).key_schedule().read_keys() == Some(server)
                &&& final(self).key_schedule().write_counter() == 0
                &&& final(self).key_schedule().read_counter() == 0
                &&& final(self).closed() == old(self).closed()
                &&& final(self).failure() == old(self).failure()
                &&& final(self).pending() == old(self).pending()
                &&& final(self).unread() == old(self).unread()
                &&& final(self).max_block() == old(self).max_block()
                &&& final(self).read_capacity() == old(self).read_capacity()
            },
    {
        if handshake.state() != State::ApplicationData {
            return Err(TlsError::MissingHandshake);
        }
        match self.key_schedule.rotate_application_keys(client, server) {
            Err(e) => Err(e),
            Ok(()) => {
                self.opened = true;
                Ok(())
            },
        }
    }

    /// Whether the handshake has completed.
    pub fn is_opened(&self) -> (r: bool)
        ensures
            r == self.opened(),
    {
        self.opened
    }

    /// The error that ended the connection, if one did.
    pub fn failed(&self) -> (r: Option<TlsError>)
        ensures
            r == self.failure(),
    {
        self.failure
    }

    /// Whether a CloseNotify has been sent or received.
    pub fn is_closed(&self) -> (r: bool)
        ensures
            r == self.closed(),
    {
        self.closed
    }
}

/// The alert description sent before failing with `e`, if one is sent:
/// unexpected_message, record_overflow, decode_error, decrypt_error,
/// internal_error.
pub open spec fn alert_for(e: TlsError) -> Option<u8> {
    match e {
        TlsError::UnexpectedMessage => Some(10u8),
        TlsError::RecordOverflow => Some(22u8),
        TlsError::DecodeError => Some(50u8),
        TlsError::CryptoError => Some(51u8),
        TlsError::InternalError => Some(80u8),
        _ => None,
    }
}

/// The alert description that reports `e` to the peer; `None` for errors
/// that are not the peer's to hear of.
pub fn alert_description(e: TlsError) -> (r: Option<u8>)
    ensures
        r == alert_for(e),
{
    match e {
        TlsError::UnexpectedMessage => Some(10u8),
        TlsError::RecordOverflow => Some(22u8),
        TlsError::DecodeError => Some(50u8),
        TlsError::CryptoError => Some(51u8),
        TlsError::InternalError => Some(80u8),
        _ => None,
    }
}

impl TlsConnection {
    /// What the AEAD must seal to send the fatal alert for `e` before the
    /// connection is dropped; `None` when `e` has no alert or no write keys
    /// are installed.
    pub fn alert_request(&self, e: TlsError) -> (r: Option<SealRequest>)
        requires
            self.wf(),
        ensures
            alert_for(e) is None || self.key_schedule().write_keys() is None ==> r is None,
            alert_for(e) is Some && self.key_schedule().write_keys() is Some ==> r is Some
                && seal_request_spec(
                r->0,
                self.key_schedule().write_keys()->0,
                self.key_schedule().write_counter(),
                inner_plaintext_bytes(seq![2u8, alert_for(e)->0], ContentType::Alert),
            ),
    {
        match alert_description(e) {
            None => None,
            Some(d) => {
                let alert: Vec<u8> = vec![2u8, d];
                assert(alert@ =~= seq![2u8, alert_for(e)->0]);
                self.seal_request(ContentType::Alert, alert.as_slice())
            },
        }
    }
    /// Frames the fatal alert for `e` in the clear at the start of the write
    /// buffer, for failures before any write keys exist, and returns the
    /// record's length; `None` when `e` has no alert, when keys exist (the
    /// alert must then be sealed, see `alert_request`), or when plaintext is
    /// still buffered.
    pub fn plaintext_alert(&mut self, e: TlsError) -> (r: Option<usize>)
        requires
            old(self).wf(),
        ensures
            final(self).wf(),
            final(self).write_buf().len() == old(self).write_buf().len(),
            alert_for(e) is None || old(self).key_schedule().write_keys() is Some || old(
                self).pending().len() > 0 ==> r is None && *final(self) == *old(self),
            alert_for(e) is Some && old(self).key_schedule().write_keys() is None && old(
                self).pending().len() == 0 ==> {
                &&& r == Some(7usize)
                &&& final(self).write_buf().subrange(0, 7) == header_bytes(ContentType::Alert, 2)
                    + seq![2u8, alert_for(e)->0]
                &&& final(self).key_schedule() == old(self).key_schedule()
                &&& final(self).opened() == old(self).opened()
                &&& final(self).closed() == old(self).closed()
                &&& final(self).failure() == old(self).failure()
                &&& final(self).unread() == old(self).unread()
            },
    {
        if self.key_schedule.write_key().is_some() || self.write_pos > 0 {
            return None;
        }
        match alert_description(e) {
            None => None,
            Some(d) => {
                let alert: Vec<u8> = vec![2u8, d];
                assert(alert@ =~= seq![2u8, alert_for(e)->0]);
                match self.write_plaintext_record(ContentType::Alert, alert.as_slice()) {
                    Ok(n) => Some(n),
                    Err(_) => None,
                }
            },
        }
    }
}

/// What one flush seals, a peer's `receive_record` delivers unchanged: an
/// ApplicationData body built from plaintext `p` that fits the peer's read
/// buffer comes out as exactly `p`.
pub proof fn lemma_record_round_trip(p: Seq<u8>, cap: nat)
    requires
        p.len() <= cap,
        p.len() < usize::MAX,
    ensures
        inbound_spec(
            ContentType::ApplicationData,
            Some(inner_plaintext_bytes(p, ContentType::ApplicationData)),
            cap,
        ) == Ok::<Option<Seq<u8>>, TlsError>(Some(p)),
{
    crate::record::lemma_inner_plaintext_round_trip(p, ContentType::ApplicationData);
}

/// A record that the AEAD refused delivers nothing and ends the connection
/// with `CryptoError`.
pub proof fn lemma_refused_record(cap: nat)
    ensures
        inbound_spec(ContentType::ApplicationData, None, cap) == Err::<Option<Seq<u8>>, TlsError>(
            TlsError::CryptoError,
        ),
{
}

} // verus!
