use vstd::prelude::*;

use crate::error::TlsError;

verus! {

/// Length of the authentication tag that every TLS 1.3 AEAD appends.
pub const AEAD_TAG_LEN: usize = 16;

/// Length of a per-direction write IV.
pub const IV_LEN: usize = 12;

/// A per-direction AEAD key and IV, as derived by HKDF-Expand-Label.
#[derive(Debug)]
pub struct TrafficKeys {
    pub key: Vec<u8>,
    pub iv: Vec<u8>,
}

impl TrafficKeys {
    pub open spec fn wf(&self) -> bool {
        self.iv@.len() == IV_LEN
    }
}

/// Byte `k` (0 = most significant) of the big-endian encoding of `c`.
pub open spec fn be64_byte(c: u64, k: int) -> u8 {
    ((c >> (((7 - k) * 8) as u64)) & 0xffu64) as u8
}

/// The per-record nonce: the IV with the big-endian counter XORed into its
/// last eight bytes.
pub open spec fn nonce_spec(iv: Seq<u8>, counter: u64) -> Seq<u8> {
    Seq::new(
        iv.len(),
        |i: int|
            if i < iv.len() - 8 {
                iv[i]
            } else {
                iv[i] ^ be64_byte(counter, i - (iv.len() - 8))
            },
    )
}

/// Computes `iv XOR BE64(counter)`, the counter aligned to the end of the IV.
pub fn compute_nonce(iv: &[u8], counter: u64) -> (r: Vec<u8>)
    requires
        iv@.len() >= 8,
    ensures
        r@ == nonce_spec(iv@, counter),
{
    let n = iv.len();
    let mut r: Vec<u8> = Vec::new();
    let mut i: usize = 0;
    while i < n
        invariant
            n == iv@.len(),
            n >= 8,
            i <= n,
            r@ == nonce_spec(iv@, counter).subrange(0, i as int),
        decreases n - i,
    {
        if i < n - 8 {
            r.push(iv[i]);
        } else {
            let k: usize = i - (n - 8);
            let b: u8 = ((counter >> (((7 - k) * 8) as u64)) & 0xffu64) as u8;
            r.push(iv[i] ^ b);
        }
        assert(r@ =~= nonce_spec(iv@, counter).subrange(0, i + 1));
        i = i + 1;
    }
    assert(r@ =~= nonce_spec(iv@, counter));
    r
}

/// Per-direction traffic keys and record sequence counters.
pub struct KeySchedule {
    write_keys: Option<TrafficKeys>,
    read_keys: Option<TrafficKeys>,
    write_counter: u64,
    read_counter: u64,
    rotated: bool,
}

impl KeySchedule {
    /// The keys that seal outbound records, if any are installed.
    pub closed spec fn write_keys(&self) -> Option<TrafficKeys> {
        self.write_keys
    }

    /// The keys that open inbound records, if any are installed.
    pub closed spec fn read_keys(&self) -> Option<TrafficKeys> {
        self.read_keys
    }

    /// Number of records sealed under the current write keys.
    pub closed spec fn write_counter(&self) -> u64 {
        self.write_counter
    }

    /// Number of records opened under the current read keys.
    pub closed spec fn read_counter(&self) -> u64 {
        self.read_counter
    }

    /// Whether the application traffic keys are in force.
    pub closed spec fn rotated(&self) -> bool {
        self.rotated
    }

    pub open spec fn wf(&self) -> bool {
        &&& (self.write_keys() is Some ==> self.write_keys()->0.wf())
        &&& (self.read_keys() is Some ==> self.read_keys()->0.wf())
    }

    /// A key schedule with no traffic keys yet: records travel in the clear.
    pub fn new() -> (r: KeySchedule)
        ensures
            r.wf(),
            r.write_keys() is None,
            r.read_keys() is None,
            r.write_counter() == 0,
            r.read_counter() == 0,
            !r.rotated(),
    {
        KeySchedule {
            write_keys: None,
            read_keys: None,
            write_counter: 0,
            read_counter: 0,
            rotated: false,
        }
    }

    /// Installs the handshake traffic keys for both directions and restarts
    /// both counters.
    pub fn install_handshake_keys(&mut self, client: TrafficKeys, server: TrafficKeys)
        requires
            client.wf(),
            server.wf(),
        ensures
            final(self).wf(),
            final(self).write_keys() == Some(client),
            final(self).read_keys() == Some(server),
            final(self).write_counter() == 0,
            final(self).read_counter() == 0,
            final(self).rotated() == old(self).rotated(),
    {
        self.write_keys = Some(client);
        self.read_keys = Some(server);
        self.write_counter = 0;
        self.read_counter = 0;
    }

    /// Replaces both directions' keys with the application traffic keys and
    /// restarts both counters. This happens once per connection; a second
    /// call fails and changes nothing.
    pub fn rotate_application_keys(&mut self, client: TrafficKeys, server: TrafficKeys) -> (r:
        Result<(), TlsError>)
        requires
            old(self).wf(),
            client.wf(),
            server.wf(),
        ensures
            final(self).wf(),
            old(self).rotated() ==> r == Err::<(), TlsError>(TlsError::InternalError)
                && *final(self) == *old(self),
            !old(self).rotated() ==> {
                &&& r is Ok
                &&& final(self).write_keys() == Some(client)
                &&& final(self).read_keys() == Some(server)
                &&& final(self).write_counter() == 0
                &&& final(self).read_counter() == 0
                &&& final(self).rotated()
            },
    {
        if self.rotated {
            return Err(TlsError::InternalError);
        }
        self.write_keys = Some(client);
        self.read_keys = Some(server);
        self.write_counter = 0;
        self.read_counter = 0;
        self.rotated = true;
        Ok(())
    }

    /// A copy of the key that seals outbound records, if one is installed.
    pub fn write_key(&self) -> (r: Option<Vec<u8>>)
        ensures
            r is Some == self.write_keys() is Some,
            r is Some ==> r->0@ == self.write_keys()->0.key@,
    {
        match &self.write_keys {
            None => None,
            Some(keys) => {
                let mut k: Vec<u8> = Vec::new();
                k.extend_from_slice(keys.key.as_slice());
                Some(k)
            },
        }
    }

    /// A copy of the key that opens inbound records, if one is installed.
    pub fn read_key(&self) -> (r: Option<Vec<u8>>)
        ensures
            r is Some == self.read_keys() is Some,
            r is Some ==> r->0@ == self.read_keys()->0.key@,
    {
        match &self.read_keys {
            None => None,
            Some(keys) => {
                let mut k: Vec<u8> = Vec::new();
                k.extend_from_slice(keys.key.as_slice());
                Some(k)
            },
        }
    }

    /// The nonce for the next outbound record.
    pub fn write_nonce(&self) -> (r: Vec<u8>)
        requires
            self.wf(),
            self.write_keys() is Some,
        ensures
            r@ == nonce_spec(self.write_keys()->0.iv@, self.write_counter()),
    {
        let keys = self.write_keys.as_ref().unwrap();
        compute_nonce(keys.iv.as_slice(), self.write_counter)
    }

    /// The nonce for the next inbound record.
    pub fn read_nonce(&self) -> (r: Vec<u8>)
        requires
            self.wf(),
            self.read_keys() is Some,
        ensures
            r@ == nonce_spec(self.read_keys()->0.iv@, self.read_counter()),
    {
        let keys = self.read_keys.as_ref().unwrap();
        compute_nonce(keys.iv.as_slice(), self.read_counter)
    }

    /// Counts one sealed record. The counter never wraps: at its largest
    /// value the call fails and the connection must be dropped.
    pub fn increment_write_counter(&mut self) -> (r: Result<(), TlsError>)
        ensures
            old(self).write_counter() == u64::MAX ==> r == Err::<(), TlsError>(
                TlsError::InternalError,
            ) && *final(self) == *old(self),
            old(self).write_counter() < u64::MAX ==> r is Ok && final(self).write_counter()
                == old(self).write_counter() + 1,
            final(self).write_keys() == old(self).write_keys(),
            final(self).read_keys() == old(self).read_keys(),
            final(self).read_counter() == old(self).read_counter(),
            final(self).rotated() == old(self).rotated(),
    {
        if self.write_counter == u64::MAX {
            return Err(TlsError::InternalError);
        }
        self.write_counter = self.write_counter + 1;
        Ok(())
    }

    /// Counts one opened record, failing rather than wrapping.
    pub fn increment_read_counter(&mut self) -> (r: Result<(), TlsError>)
        ensures
            old(self).read_counter() == u64::MAX ==> r == Err::<(), TlsError>(
                TlsError::InternalError,
            ) && *final(self) == *old(self),
            old(self).read_counter() < u64::MAX ==> r is Ok && final(self).read_counter()
                == old(self).read_counter() + 1,
            final(self).write_keys() == old(self).write_keys(),
            final(self).read_keys() == old(self).read_keys(),
            final(self).write_counter() == old(self).write_counter(),
            final(self).rotated() == old(self).rotated(),
    {
        if self.read_counter == u64::MAX {
            return Err(TlsError::InternalError);
        }
        self.read_counter = self.read_counter + 1;
        Ok(())
    }
}

} // verus!
