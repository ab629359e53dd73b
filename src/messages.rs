use vstd::prelude::*;

use crate::error::TlsError;
use crate::handshake::{CLIENT_HELLO, FINISHED};

verus! {

/// Extension types written into a ClientHello.
pub const EXT_SERVER_NAME: u16 = 0;
pub const EXT_SUPPORTED_GROUPS: u16 = 10;
pub const EXT_SIGNATURE_ALGORITHMS: u16 = 13;
pub const EXT_SUPPORTED_VERSIONS: u16 = 43;
pub const EXT_KEY_SHARE: u16 = 51;

/// Bytes of the extension block of a ClientHello besides the group and
/// scheme lists, the key share and the server name.
pub const CLIENT_HELLO_EXT_OVERHEAD: usize = 38;

/// Whether a ClientHello with these parts fits the wire format: the cipher
/// suite list and the whole extension block each fit a 16-bit length.
pub open spec fn client_hello_fits(suites: nat, groups: nat, schemes: nat, key_share: nat, name: nat) -> bool {
    &&& 2 * suites <= u16::MAX
    &&& 2 * groups + 2 * schemes + key_share + name + CLIENT_HELLO_EXT_OVERHEAD <= u16::MAX
}

/// Tests `client_hello_fits` on the lengths of the parts.
pub fn check_client_hello_fits(suites: usize, groups: usize, schemes: usize, key_share: usize, name: usize) -> (r: bool)
    ensures
        r == client_hello_fits(suites as nat, groups as nat, schemes as nat, key_share as nat, name as nat),
{
    suites <= 32767 && groups <= 32767 && schemes <= 32767 && key_share <= 65535 && name <= 65535
        && 2 * groups + 2 * schemes + key_share + name + CLIENT_HELLO_EXT_OVERHEAD <= 65535
}

/// The big-endian bytes of `x`.
pub open spec fn be16(x: u16) -> Seq<u8> {
    seq![(x / 256) as u8, (x % 256) as u8]
}

/// A list of 16-bit values, each big-endian, in order.
pub open spec fn u16_list(s: Seq<u16>) -> Seq<u8>
    decreases s.len(),
{
    if s.len() == 0 {
        Seq::empty()
    } else {
        u16_list(s.drop_last()) + be16(s.last())
    }
}

/// `body` behind its 16-bit length.
pub open spec fn with_len16(body: Seq<u8>) -> Seq<u8> {
    be16(body.len() as u16) + body
}

/// An extension: its type, then its data behind a 16-bit length.
pub open spec fn extension(ty: u16, data: Seq<u8>) -> Seq<u8> {
    be16(ty) + with_len16(data)
}

/// The parameters of a ClientHello.
pub struct ClientHelloParams {
    pub random: Seq<u8>,
    pub cipher_suites: Seq<u16>,
    pub groups: Seq<u16>,
    pub signature_schemes: Seq<u16>,
    pub key_share_group: u16,
    pub key_share: Seq<u8>,
    pub server_name: Option<Seq<u8>>,
}

/// The extensions of a ClientHello: supported_versions offering TLS 1.3
/// only, supported_groups, signature_algorithms, one key share, and the
/// server name when there is one.
pub open spec fn client_hello_extensions(p: ClientHelloParams) -> Seq<u8> {
    extension(EXT_SUPPORTED_VERSIONS, seq![2u8, 3u8, 4u8]) + extension(
        EXT_SUPPORTED_GROUPS,
        with_len16(u16_list(p.groups)),
    ) + extension(EXT_SIGNATURE_ALGORITHMS, with_len16(u16_list(p.signature_schemes)))
        + extension(EXT_KEY_SHARE, with_len16(be16(p.key_share_group) + with_len16(p.key_share)))
        + match p.server_name {
        Some(name) => extension(EXT_SERVER_NAME, with_len16(seq![0u8] + with_len16(name))),
        None => Seq::empty(),
    }
}

/// The body of a ClientHello: legacy version, random, empty session id,
/// cipher suites, the null compression method, extensions.
pub open spec fn client_hello_body(p: ClientHelloParams) -> Seq<u8> {
    be16(0x0303) + p.random + seq![0u8] + with_len16(u16_list(p.cipher_suites)) + seq![1u8, 0u8]
        + with_len16(client_hello_extensions(p))
}

/// A whole ClientHello message: type, 24-bit length, body.
pub open spec fn client_hello_bytes(p: ClientHelloParams) -> Seq<u8> {
    let body = client_hello_body(p);
    seq![
        CLIENT_HELLO,
        (body.len() / 65536) as u8,
        ((body.len() / 256) % 256) as u8,
        (body.len() % 256) as u8,
    ] + body
}

pub proof fn lemma_u16_list_len(s: Seq<u16>)
    ensures
        u16_list(s).len() == 2 * s.len(),
    decreases s.len(),
{
    if s.len() > 0 {
        lemma_u16_list_len(s.drop_last());
    }
}

fn push_u16(v: &mut Vec<u8>, x: u16)
    ensures
        final(v)@ == old(v)@ + be16(x),
{
    v.push((x / 256) as u8);
    v.push((x % 256) as u8);
    assert(final(v)@ =~= old(v)@ + be16(x));
}

fn u16_list_bytes(xs: &[u16]) -> (r: Vec<u8>)
    ensures
        r@ == u16_list(xs@),
{
    let mut v: Vec<u8> = Vec::new();
    let mut i: usize = 0;
    assert(xs@.subrange(0, 0) =~= Seq::<u16>::empty());
    while i < xs.len()
        invariant
            i <= xs@.len(),
            v@ == u16_list(xs@.subrange(0, i as int)),
        decreases xs@.len() - i,
    {
        push_u16(&mut v, xs[i]);
        assert(xs@.subrange(0, i + 1).drop_last() =~= xs@.subrange(0, i as int));
        i = i + 1;
    }
    assert(xs@.subrange(0, i as int) =~= xs@);
    v
}

fn prefixed16(body: &[u8]) -> (r: Vec<u8>)
    requires
        body@.len() <= u16::MAX,
    ensures
        r@ == with_len16(body@),
{
    let mut v: Vec<u8> = Vec::new();
    push_u16(&mut v, body.len() as u16);
    v.extend_from_slice(body);
    v
}

fn push_extension(v: &mut Vec<u8>, ty: u16, data: &[u8])
    requires
        data@.len() <= u16::MAX,
    ensures
        final(v)@ == old(v)@ + extension(ty, data@),
{
    push_u16(v, ty);
    let d = prefixed16(data);
    v.extend_from_slice(d.as_slice());
    assert(final(v)@ =~= old(v)@ + extension(ty, data@));
}

fn append(v: &mut Vec<u8>, other: &[u8])
    ensures
        final(v)@ == old(v)@ + other@,
{
    v.extend_from_slice(other);
}

fn list_extension(ty: u16, xs: &[u16]) -> (r: Vec<u8>)
    requires
        2 * xs@.len() + 2 <= u16::MAX,
    ensures
        r@ == extension(ty, with_len16(u16_list(xs@))),
{
    proof {
        lemma_u16_list_len(xs@);
    }
    let l = prefixed16(u16_list_bytes(xs).as_slice());
    let mut v: Vec<u8> = Vec::new();
    push_extension(&mut v, ty, l.as_slice());
    assert(v@ =~= extension(ty, with_len16(u16_list(xs@))));
    v
}

fn key_share_extension(group: u16, key_share: &[u8]) -> (r: Vec<u8>)
    requires
        key_share@.len() + 6 <= u16::MAX,
    ensures
        r@ == extension(EXT_KEY_SHARE, with_len16(be16(group) + with_len16(key_share@))),
{
    let mut entry: Vec<u8> = Vec::new();
    push_u16(&mut entry, group);
    let ks = prefixed16(key_share);
    append(&mut entry, ks.as_slice());
    let shares = prefixed16(entry.as_slice());
    let mut v: Vec<u8> = Vec::new();
    push_extension(&mut v, EXT_KEY_SHARE, shares.as_slice());
    assert(v@ =~= extension(EXT_KEY_SHARE, with_len16(be16(group) + with_len16(key_share@))));
    v
}

fn server_name_extension(name: &[u8]) -> (r: Vec<u8>)
    requires
        name@.len() + 5 <= u16::MAX,
    ensures
        r@ == extension(EXT_SERVER_NAME, with_len16(seq![0u8] + with_len16(name@))),
{
    let mut list: Vec<u8> = vec![0u8];
    let pn = prefixed16(name);
    append(&mut list, pn.as_slice());
    let l = prefixed16(list.as_slice());
    let mut v: Vec<u8> = Vec::new();
    push_extension(&mut v, EXT_SERVER_NAME, l.as_slice());
    assert(v@ =~= extension(EXT_SERVER_NAME, with_len16(seq![0u8] + with_len16(name@))));
    v
}

fn client_hello_extension_bytes(
    groups: &[u16],
    signature_schemes: &[u16],
    key_share_group: u16,
    key_share: &[u8],
    server_name: Option<&[u8]>,
    Ghost(p): Ghost<ClientHelloParams>,
) -> (r: Vec<u8>)
    requires
        client_hello_fits(
            0,
            groups@.len(),
            signature_schemes@.len(),
            key_share@.len(),
            match server_name {
                Some(n) => n@.len(),
                None => 0,
            },
        ),
        p.groups == groups@,
        p.signature_schemes == signature_schemes@,
        p.key_share_group == key_share_group,
        p.key_share == key_share@,
        p.server_name == match server_name {
            Some(n) => Some(n@),
            None => None::<Seq<u8>>,
        },
    ensures
        r@ == client_hello_extensions(p),
        r@.len() <= u16::MAX,
{
    let mut exts: Vec<u8> = Vec::new();
    let versions: Vec<u8> = vec![2u8, 3u8, 4u8];
    push_extension(&mut exts, EXT_SUPPORTED_VERSIONS, versions.as_slice());
    let g = list_extension(EXT_SUPPORTED_GROUPS, groups);
    append(&mut exts, g.as_slice());
    let s = list_extension(EXT_SIGNATURE_ALGORITHMS, signature_schemes);
    append(&mut exts, s.as_slice());
    let k = key_share_extension(key_share_group, key_share);
    append(&mut exts, k.as_slice());
    proof {
        lemma_u16_list_len(groups@);
        lemma_u16_list_len(signature_schemes@);
    }
    match server_name {
        Some(name) => {
            let n = server_name_extension(name);
            append(&mut exts, n.as_slice());
        },
        None => {},
    }
    assert(exts@ =~= client_hello_extensions(p));
    exts
}

/// Serializes a ClientHello message offering `cipher_suites`, the
/// `groups` and `signature_schemes` it accepts, one ECDHE `key_share` for
/// `key_share_group`, and the server name if given.
pub fn encode_client_hello(
    random: &[u8],
    cipher_suites: &[u16],
    groups: &[u16],
    signature_schemes: &[u16],
    key_share_group: u16,
    key_share: &[u8],
    server_name: Option<&[u8]>,
) -> (r: Vec<u8>)
    requires
        random@.len() == 32,
        client_hello_fits(
            cipher_suites@.len(),
            groups@.len(),
            signature_schemes@.len(),
            key_share@.len(),
            match server_name {
                Some(n) => n@.len(),
                None => 0,
            },
        ),
    ensures
        r@ == client_hello_bytes(
            ClientHelloParams {
                random: random@,
                cipher_suites: cipher_suites@,
                groups: groups@,
                signature_schemes: signature_schemes@,
                key_share_group,
                key_share: key_share@,
                server_name: match server_name {
                    Some(n) => Some(n@),
                    None => None,
                },
            },
        ),
{
    let ghost p = ClientHelloParams {
        random: random@,
        cipher_suites: cipher_suites@,
        groups: groups@,
        signature_schemes: signature_schemes@,
        key_share_group,
        key_share: key_share@,
        server_name: match server_name {
            Some(n) => Some(n@),
            None => None,
        },
    };
    let exts = client_hello_extension_bytes(
        groups,
        signature_schemes,
        key_share_group,
        key_share,
        server_name,
        Ghost(p),
    );
    proof {
        lemma_u16_list_len(cipher_suites@);
    }
    let mut body: Vec<u8> = Vec::new();
    push_u16(&mut body, 0x0303);
    append(&mut body, random);
    body.push(0u8);
    let cs = prefixed16(u16_list_bytes(cipher_suites).as_slice());
    append(&mut body, cs.as_slice());
    body.push(1u8);
    body.push(0u8);
    let e = prefixed16(exts.as_slice());
    append(&mut body, e.as_slice());
    assert(body@ =~= client_hello_body(p));
    let n = body.len();
    let mut m: Vec<u8> = vec![CLIENT_HELLO, (n / 65536) as u8, ((n / 256) % 256) as u8, (n % 256) as u8];
    append(&mut m, body.as_slice());
    assert(m@ =~= client_hello_bytes(p));
    m
}

/// A big-endian 16-bit value from two bytes.
pub open spec fn u16_at(hi: u8, lo: u8) -> u16 {
    (hi as int * 256 + lo as int) as u16
}

/// What the extensions of a ServerHello have given so far.
pub struct ExtAcc {
    pub version: Option<u16>,
    pub group: Option<u16>,
    pub key_share: Seq<u8>,
}

/// Takes in one ServerHello extension of type `ty` with data `d`. A
/// HelloRetryRequest's key_share names only a group; a ServerHello's holds
/// the group and the server's share. Other types are passed over; a second
/// supported_versions or key_share is refused.
pub open spec fn ext_step(ty: u16, d: Seq<u8>, hrr: bool, acc: ExtAcc) -> Result<ExtAcc, TlsError> {
    if ty == EXT_SUPPORTED_VERSIONS {
        if acc.version is Some || d.len() != 2 {
            Err(TlsError::DecodeError)
        } else {
            Ok(ExtAcc { version: Some(u16_at(d[0], d[1])), ..acc })
        }
    } else if ty == EXT_KEY_SHARE {
        if acc.group is Some {
            Err(TlsError::DecodeError)
        } else if hrr {
            if d.len() != 2 {
                Err(TlsError::DecodeError)
            } else {
                Ok(ExtAcc { group: Some(u16_at(d[0], d[1])), key_share: Seq::empty(), ..acc })
            }
        } else if d.len() < 4 || 4 + u16_at(d[2], d[3]) as int != d.len() {
            Err(TlsError::DecodeError)
        } else {
            Ok(ExtAcc { group: Some(u16_at(d[0], d[1])), key_share: d.subrange(4, d.len() as int), ..acc })
        }
    } else {
        Ok(acc)
    }
}

/// Takes in every extension of the list `s` in order.
pub open spec fn exts_spec(s: Seq<u8>, hrr: bool, acc: ExtAcc) -> Result<ExtAcc, TlsError>
    decreases s.len(),
{
    if s.len() == 0 {
        Ok(acc)
    } else if s.len() < 4 {
        Err(TlsError::DecodeError)
    } else {
        let n = u16_at(s[2], s[3]) as int;
        if 4 + n > s.len() {
            Err(TlsError::DecodeError)
        } else {
            match ext_step(u16_at(s[0], s[1]), s.subrange(4, 4 + n), hrr, acc) {
                Err(e) => Err(e),
                Ok(a) => exts_spec(s.subrange(4 + n, s.len() as int), hrr, a),
            }
        }
    }
}

/// What a ServerHello or HelloRetryRequest tells the client.
pub struct ServerHelloView {
    pub cipher_suite: u16,
    pub group: u16,
    pub key_share: Seq<u8>,
}

/// Parses the ServerHello message `msg` (header included): the legacy
/// version, the random, a session id echo of at most 32 bytes, the cipher
/// suite, the null compression method, and extensions that fill the rest
/// exactly, among them supported_versions selecting TLS 1.3 and a key share.
pub open spec fn server_hello_spec(msg: Seq<u8>, hrr: bool) -> Result<ServerHelloView, TlsError> {
    if msg.len() < 4 + 35 {
        Err(TlsError::DecodeError)
    } else {
        let sid = msg[38] as int;
        let pos = 4 + 35 + sid;
        if sid > 32 || pos + 5 > msg.len() || msg[pos + 2] != 0 || pos + 5 + u16_at(
            msg[pos + 3],
            msg[pos + 4],
        ) as int != msg.len() {
            Err(TlsError::DecodeError)
        } else {
            let exts = msg.subrange(pos + 5, msg.len() as int);
            let none = ExtAcc { version: None, group: None, key_share: Seq::empty() };
            if !extension_list_ok(exts) {
                Err(TlsError::DecodeError)
            } else {
                server_hello_result(u16_at(msg[pos], msg[pos + 1]), exts_spec(exts, hrr, none))
            }
        }
    }
}

/// The outcome once the extensions are read: TLS 1.3 must be selected and a
/// key share present.
pub open spec fn server_hello_result(suite: u16, exts: Result<ExtAcc, TlsError>) -> Result<ServerHelloView, TlsError> {
    match exts {
        Err(e) => Err(e),
        Ok(a) => if a.version != Some(0x0304u16) || a.group is None {
            Err(TlsError::DecodeError)
        } else {
            Ok(ServerHelloView { cipher_suite: suite, group: a.group->0, key_share: a.key_share })
        },
    }
}

/// What a ServerHello or HelloRetryRequest selected.
pub struct ServerHello {
    pub cipher_suite: u16,
    pub group: u16,
    pub key_share: Vec<u8>,
}

impl View for ServerHello {
    type V = ServerHelloView;

    open spec fn view(&self) -> ServerHelloView {
        ServerHelloView { cipher_suite: self.cipher_suite, group: self.group, key_share: self.key_share@ }
    }
}

/// Parses a ServerHello, or with `hrr` a HelloRetryRequest, whose key
/// share then names only the group to retry with.
pub fn parse_server_hello(msg: &[u8], hrr: bool) -> (r: Result<ServerHello, TlsError>)
    ensures
        match server_hello_spec(msg@, hrr) {
            Ok(v) => r is Ok && r->Ok_0@ == v,
            Err(e) => r is Err && r->Err_0 == e,
        },
{
    let len = msg.len();
    if len < 4 + 35 {
        return Err(TlsError::DecodeError);
    }
    let sid = msg[4 + 34] as usize;
    let pos = 4 + 35 + sid;
    if sid > 32 || pos + 5 > len || msg[pos + 2] != 0 {
        return Err(TlsError::DecodeError);
    }
    let ext_len = (msg[pos + 3] as usize) * 256 + msg[pos + 4] as usize;
    if pos + 5 + ext_len != len {
        return Err(TlsError::DecodeError);
    }
    let suite: u16 = (msg[pos] as u16) * 256 + msg[pos + 1] as u16;
    let e = vstd::slice::slice_subrange(msg, pos + 5, len);
    if !check_extension_list(e) {
        return Err(TlsError::DecodeError);
    }
    let ghost none = ExtAcc { version: None, group: None, key_share: Seq::empty() };
    let mut version: Option<u16> = None;
    let mut group: Option<u16> = None;
    let mut ks: usize = 0;
    let mut ke: usize = 0;
    let mut i: usize = 0;
    let elen = e.len();
    assert(e@.subrange(0, elen as int) =~= e@);
    assert(e@.subrange(0, 0) =~= Seq::<u8>::empty());
    assert(e@ == msg@.subrange(pos + 5, len as int));
    assert(server_hello_spec(msg@, hrr) == server_hello_result(suite, exts_spec(e@, hrr, none)));
    while i < elen
        invariant
            elen == e@.len(),
            server_hello_spec(msg@, hrr) == server_hello_result(suite, exts_spec(e@, hrr, none)),
            i <= elen,
            ks <= ke <= elen,
            exts_spec(e@, hrr, none) == exts_spec(
                e@.subrange(i as int, elen as int),
                hrr,
                ExtAcc { version, group, key_share: e@.subrange(ks as int, ke as int) },
            ),
        decreases elen - i,
    {
        let ghost acc = ExtAcc { version, group, key_share: e@.subrange(ks as int, ke as int) };
        let ghost rest = e@.subrange(i as int, elen as int);
        if elen - i < 4 {
            assert(exts_spec(rest, hrr, acc) == Err::<ExtAcc, TlsError>(TlsError::DecodeError));
            return Err(TlsError::DecodeError);
        }
        let ty: u16 = (e[i] as u16) * 256 + e[i + 1] as u16;
        let n = (e[i + 2] as usize) * 256 + e[i + 3] as usize;
        assert(rest[0] == e[i as int] && rest[1] == e[i + 1] && rest[2] == e[i + 2] && rest[3] == e[i + 3]);
        if n > elen - i - 4 {
            assert(exts_spec(rest, hrr, acc) == Err::<ExtAcc, TlsError>(TlsError::DecodeError));
            return Err(TlsError::DecodeError);
        }
        let d = i + 4;
        assert(rest.subrange(4, 4 + n) =~= e@.subrange(d as int, d + n));
        assert(rest.subrange(4 + n, rest.len() as int) =~= e@.subrange(d + n, elen as int));
        if ty == EXT_SUPPORTED_VERSIONS {
            if version.is_some() || n != 2 {
                return Err(TlsError::DecodeError);
            }
            version = Some((e[d] as u16) * 256 + e[d + 1] as u16);
        } else if ty == EXT_KEY_SHARE {
            if group.is_some() {
                return Err(TlsError::DecodeError);
            }
            if hrr {
                if n != 2 {
                    return Err(TlsError::DecodeError);
                }
                group = Some((e[d] as u16) * 256 + e[d + 1] as u16);
                ks = d;
                ke = d;
                assert(e@.subrange(d as int, d as int) =~= Seq::<u8>::empty());
            } else {
                if n < 4 || 4 + (e[d + 2] as usize) * 256 + e[d + 3] as usize != n {
                    return Err(TlsError::DecodeError);
                }
                group = Some((e[d] as u16) * 256 + e[d + 1] as u16);
                ks = d + 4;
                ke = d + n;
                assert(e@.subrange(d as int, d + n).subrange(4, n as int) =~= e@.subrange(
                    ks as int,
                    ke as int,
                ));
            }
        }
        let ghost acc2 = ExtAcc { version, group, key_share: e@.subrange(ks as int, ke as int) };
        assert(ext_step(ty, e@.subrange(d as int, d + n), hrr, acc) == Ok::<ExtAcc, TlsError>(acc2));
        assert(exts_spec(rest, hrr, acc) == exts_spec(e@.subrange(d + n, elen as int), hrr, acc2));
        i = d + n;
    }
    let ghost fin = ExtAcc { version, group, key_share: e@.subrange(ks as int, ke as int) };
    assert(e@.subrange(elen as int, elen as int) =~= Seq::<u8>::empty());
    assert(exts_spec(e@, hrr, none) == Ok::<ExtAcc, TlsError>(fin));
    match version {
        Some(v) => {
            if v != 0x0304 {
                return Err(TlsError::DecodeError);
            }
        },
        None => {
            return Err(TlsError::DecodeError);
        },
    }
    match group {
        None => Err(TlsError::DecodeError),
        Some(g) => {
            let mut key: Vec<u8> = Vec::new();
            key.extend_from_slice(vstd::slice::slice_subrange(e, ks, ke));
            assert(key@ =~= fin.key_share);
            assert(suite == u16_at(msg@[pos as int], msg@[pos + 1]));
            Ok(ServerHello { cipher_suite: suite, group: g, key_share: key })
        },
    }
}

/// The extension types of the list `s`, in order, when every extension's
/// length stays inside the list; `None` otherwise.
pub open spec fn ext_types_spec(s: Seq<u8>) -> Option<Seq<u16>>
    decreases s.len(),
{
    if s.len() == 0 {
        Some(Seq::empty())
    } else if s.len() < 4 {
        None
    } else {
        let n = u16_at(s[2], s[3]) as int;
        if 4 + n > s.len() {
            None
        } else {
            match ext_types_spec(s.subrange(4 + n, s.len() as int)) {
                None => None,
                Some(t) => Some(seq![u16_at(s[0], s[1])] + t),
            }
        }
    }
}

/// No extension type occurs twice.
pub open spec fn distinct_types(t: Seq<u16>) -> bool {
    forall|i: int, j: int| 0 <= i < j < t.len() ==> t[i] != t[j]
}

/// Whether the handshake message `msg` (header included) carries, after
/// its header, exactly one extension block: a 16-bit length, then
/// well-framed extensions filling it, with no type repeated.
pub open spec fn extension_block_ok(msg: Seq<u8>) -> bool {
    &&& msg.len() >= 6
    &&& 6 + u16_at(msg[4], msg[5]) as int == msg.len()
    &&& extension_list_ok(msg.subrange(6, msg.len() as int))
}

spec fn prepend(p: Seq<u16>, r: Option<Seq<u16>>) -> Option<Seq<u16>> {
    match r {
        None => None,
        Some(t) => Some(p + t),
    }
}

/// Whether `e` is a list of well-framed extensions filling it exactly,
/// with no type repeated.
pub open spec fn extension_list_ok(e: Seq<u8>) -> bool {
    ext_types_spec(e) matches Some(t) && distinct_types(t)
}

/// Checks an extension list: framing and distinct types.
pub fn check_extension_list(e: &[u8]) -> (r: bool)
    ensures
        r == extension_list_ok(e@),
{
    let elen = e.len();
    let mut types: Vec<u16> = Vec::new();
    let mut i: usize = 0;
    assert(e@.subrange(0, elen as int) =~= e@);
    assert(types@ + Seq::<u16>::empty() =~= types@);
    assert(forall|t: Seq<u16>| Seq::<u16>::empty() + t == t) by {
        assert forall|t: Seq<u16>| Seq::<u16>::empty() + t == t by {
            assert(Seq::<u16>::empty() + t =~= t);
        }
    }
    while i < elen
        invariant
            elen == e@.len(),
            i <= elen,
            ext_types_spec(e@) == prepend(types@, ext_types_spec(e@.subrange(i as int, elen as int))),
            distinct_types(types@),
        decreases elen - i,
    {
        let ghost rest = e@.subrange(i as int, elen as int);
        if elen - i < 4 {
            return false;
        }
        let ty: u16 = (e[i] as u16) * 256 + e[i + 1] as u16;
        let n = (e[i + 2] as usize) * 256 + e[i + 3] as usize;
        assert(rest[0] == e@[i as int] && rest[1] == e@[i + 1] && rest[2] == e@[i + 2] && rest[3]
            == e@[i + 3]);
        if n > elen - i - 4 {
            return false;
        }
        assert(rest.subrange(4 + n, rest.len() as int) =~= e@.subrange(i + 4 + n, elen as int));
        let ghost tail = ext_types_spec(e@.subrange(i + 4 + n, elen as int));
        assert(ext_types_spec(rest) == prepend(seq![ty], tail));
        let mut k: usize = 0;
        while k < types.len()
            invariant
                k <= types@.len(),
                forall|j: int| 0 <= j < k ==> types@[j] != ty,
                ext_types_spec(e@) == prepend(types@, ext_types_spec(rest)),
                ext_types_spec(rest) == prepend(seq![ty], tail),
            decreases types@.len() - k,
        {
            if types[k] == ty {
                proof {
                    match tail {
                        None => {},
                        Some(t) => {
                            let all = types@ + (seq![ty] + t);
                            assert(all[k as int] == all[types@.len() as int]);
                        },
                    }
                }
                return false;
            }
            k = k + 1;
        }
        let ghost before = types@;
        types.push(ty);
        proof {
            match tail {
                None => {},
                Some(t) => {
                    assert(before + (seq![ty] + t) =~= types@ + t);
                },
            }
        }
        i = i + 4 + n;
    }
    assert(e@.subrange(elen as int, elen as int) =~= Seq::<u8>::empty());
    assert(types@ + Seq::<u16>::empty() =~= types@);
    true
}


/// Checks the extension block of an EncryptedExtensions message.
pub fn check_extension_block(msg: &[u8]) -> (r: bool)
    ensures
        r == extension_block_ok(msg@),
{
    let len = msg.len();
    if len < 6 {
        return false;
    }
    let block = (msg[4] as usize) * 256 + msg[5] as usize;
    if 6 + block != len {
        return false;
    }
    let e = vstd::slice::slice_subrange(msg, 6, len);
    check_extension_list(e)
}

/// A CertificateVerify message (header included): the signature scheme,
/// then the signature behind a 16-bit length that ends the message.
pub open spec fn certificate_verify_spec(msg: Seq<u8>) -> Result<(u16, Seq<u8>), TlsError> {
    if msg.len() >= 8 && 8 + u16_at(msg[6], msg[7]) as int == msg.len() {
        Ok((u16_at(msg[4], msg[5]), msg.subrange(8, msg.len() as int)))
    } else {
        Err(TlsError::DecodeError)
    }
}

/// Splits a CertificateVerify into its signature scheme and signature.
pub fn parse_certificate_verify(msg: &[u8]) -> (r: Result<(u16, Vec<u8>), TlsError>)
    ensures
        match certificate_verify_spec(msg@) {
            Ok((scheme, sig)) => r is Ok && r->Ok_0.0 == scheme && r->Ok_0.1@ == sig,
            Err(e) => r is Err && r->Err_0 == e,
        },
{
    let len = msg.len();
    if len < 8 {
        return Err(TlsError::DecodeError);
    }
    let n = (msg[6] as usize) * 256 + msg[7] as usize;
    if 8 + n != len {
        return Err(TlsError::DecodeError);
    }
    let scheme: u16 = (msg[4] as u16) * 256 + msg[5] as u16;
    let mut sig: Vec<u8> = Vec::new();
    sig.extend_from_slice(vstd::slice::slice_subrange(msg, 8, len));
    Ok((scheme, sig))
}

/// A 24-bit big-endian value at `i`.
pub open spec fn u24_at(s: Seq<u8>, i: int) -> int {
    s[i] as int * 65536 + s[i + 1] as int * 256 + s[i + 2] as int
}

/// The certificates of the entry list `s[pos..end]`, as ranges of `s`:
/// each entry is a certificate behind a 24-bit length, then its extensions
/// behind a 16-bit length.
pub open spec fn cert_entries_spec(s: Seq<u8>, pos: int, end: int) -> Option<Seq<(int, int)>>
    decreases end - pos,
{
    if pos >= end {
        if pos == end {
            Some(Seq::empty())
        } else {
            None
        }
    } else if pos + 3 > end {
        None
    } else {
        let c = pos + 3 + u24_at(s, pos);
        if c + 2 > end {
            None
        } else {
            let next = c + 2 + u16_at(s[c], s[c + 1]) as int;
            if next > end {
                None
            } else {
                match cert_entries_spec(s, next, end) {
                    None => None,
                    Some(t) => Some(seq![(pos + 3, c)] + t),
                }
            }
        }
    }
}

/// A Certificate message (header included): a request context behind an
/// 8-bit length, then the entry list behind a 24-bit length that ends the
/// message. Gives the range of each certificate, in order.
pub open spec fn certificate_spec(msg: Seq<u8>) -> Result<Seq<(int, int)>, TlsError> {
    if msg.len() < 5 {
        Err(TlsError::DecodeError)
    } else {
        let l = 5 + msg[4] as int;
        if l + 3 > msg.len() || l + 3 + u24_at(msg, l) != msg.len() {
            Err(TlsError::DecodeError)
        } else {
            match cert_entries_spec(msg, l + 3, msg.len() as int) {
                None => Err(TlsError::DecodeError),
                Some(t) => Ok(t),
            }
        }
    }
}

spec fn prepend_ranges(p: Seq<(int, int)>, r: Option<Seq<(int, int)>>) -> Option<Seq<(int, int)>> {
    match r {
        None => None,
        Some(t) => Some(p + t),
    }
}

/// The ranges `v` as integer pairs.
pub open spec fn ranges_view(v: Seq<(usize, usize)>) -> Seq<(int, int)> {
    v.map_values(|p: (usize, usize)| (p.0 as int, p.1 as int))
}

/// Finds each certificate of a Certificate message: `msg[a..b]` for every
/// `(a, b)` returned, in order.
pub fn parse_certificate(msg: &[u8]) -> (r: Result<Vec<(usize, usize)>, TlsError>)
    ensures
        match certificate_spec(msg@) {
            Ok(t) => r is Ok && ranges_view(r->Ok_0@) == t,
            Err(e) => r is Err && r->Err_0 == e,
        },
{
    let len = msg.len();
    if len < 5 {
        return Err(TlsError::DecodeError);
    }
    let l = 5 + msg[4] as usize;
    if l + 3 > len {
        return Err(TlsError::DecodeError);
    }
    let list = (msg[l] as usize) * 65536 + (msg[l + 1] as usize) * 256 + msg[l + 2] as usize;
    if l + 3 + list != len {
        return Err(TlsError::DecodeError);
    }
    let mut out: Vec<(usize, usize)> = Vec::new();
    let mut pos: usize = l + 3;
    assert(forall|t: Seq<(int, int)>| Seq::<(int, int)>::empty() + t == t) by {
        assert forall|t: Seq<(int, int)>| Seq::<(int, int)>::empty() + t == t by {
            assert(Seq::<(int, int)>::empty() + t =~= t);
        }
    }
    assert(ranges_view(out@) =~= Seq::<(int, int)>::empty());
    while pos < len
        invariant
            len == msg@.len(),
            pos <= len,
            certificate_spec(msg@) == match cert_entries_spec(msg@, l + 3, len as int) {
                None => Err(TlsError::DecodeError),
                Some(t) => Ok::<Seq<(int, int)>, TlsError>(t),
            },
            cert_entries_spec(msg@, l + 3, len as int) == prepend_ranges(
                ranges_view(out@),
                cert_entries_spec(msg@, pos as int, len as int),
            ),
        decreases len - pos,
    {
        if len - pos < 3 {
            return Err(TlsError::DecodeError);
        }
        let n = (msg[pos] as usize) * 65536 + (msg[pos + 1] as usize) * 256 + msg[pos + 2] as usize;
        if n > len - pos - 3 || len - pos - 3 - n < 2 {
            return Err(TlsError::DecodeError);
        }
        let c = pos + 3 + n;
        let e = (msg[c] as usize) * 256 + msg[c + 1] as usize;
        if e > len - c - 2 {
            return Err(TlsError::DecodeError);
        }
        let next = c + 2 + e;
        let ghost before = ranges_view(out@);
        let ghost tail = cert_entries_spec(msg@, next as int, len as int);
        out.push((pos + 3, c));
        proof {
            assert(ranges_view(out@) =~= before + seq![((pos + 3) as int, c as int)]);
            match tail {
                None => {},
                Some(t) => {
                    assert(before + (seq![((pos + 3) as int, c as int)] + t) =~= ranges_view(out@)
                        + t);
                },
            }
        }
        pos = next;
    }
    Ok(out)
}

fn contains_u16(xs: &[u16], x: u16) -> (r: bool)
    ensures
        r == xs@.contains(x),
{
    let mut i: usize = 0;
    while i < xs.len()
        invariant
            i <= xs@.len(),
            forall|j: int| 0 <= j < i ==> xs@[j] != x,
        decreases xs@.len() - i,
    {
        if xs[i] == x {
            assert(xs@[i as int] == x);
            return true;
        }
        i = i + 1;
    }
    false
}

/// Whether a ServerHello selected what the client offered: one of its
/// cipher suites, and the group of the key share it sent.
pub open spec fn selection_ok(suites: Seq<u16>, sent_group: u16, hello: ServerHelloView) -> bool {
    suites.contains(hello.cipher_suite) && hello.group == sent_group
}

/// Whether a HelloRetryRequest asks for something worth a retry: an offered
/// cipher suite, and an offered group other than the one already sent.
pub open spec fn retry_ok(suites: Seq<u16>, groups: Seq<u16>, sent_group: u16, hrr: ServerHelloView) -> bool {
    suites.contains(hrr.cipher_suite) && groups.contains(hrr.group) && hrr.group != sent_group
}

/// Checks a ServerHello's selection against the ClientHello.
pub fn check_server_selection(suites: &[u16], sent_group: u16, hello: &ServerHello) -> (r: bool)
    ensures
        r == selection_ok(suites@, sent_group, hello@),
{
    contains_u16(suites, hello.cipher_suite) && hello.group == sent_group
}

/// Checks a HelloRetryRequest's selection against the ClientHello.
pub fn check_retry_selection(suites: &[u16], groups: &[u16], sent_group: u16, hrr: &ServerHello) -> (r: bool)
    ensures
        r == retry_ok(suites@, groups@, sent_group, hrr@),
{
    contains_u16(suites, hrr.cipher_suite) && contains_u16(groups, hrr.group) && hrr.group != sent_group
}

/// The `HkdfLabel` structure that HKDF-Expand-Label hashes: the output
/// length, the label prefixed with "tls13 ", and the context, the last two
/// each behind an 8-bit length.
pub open spec fn hkdf_label_spec(length: u16, label: Seq<u8>, context: Seq<u8>) -> Seq<u8> {
    be16(length) + seq![(6 + label.len()) as u8] + seq![0x74u8, 0x6cu8, 0x73u8, 0x31u8, 0x33u8, 0x20u8]
        + label + seq![context.len() as u8] + context
}

/// Encodes the `HkdfLabel` for HKDF-Expand-Label(secret, `label`,
/// `context`, `length`); the hash and HMAC are the cipher suite's.
pub fn hkdf_label(length: u16, label: &[u8], context: &[u8]) -> (r: Vec<u8>)
    requires
        6 + label@.len() <= 255,
        context@.len() <= 255,
    ensures
        r@ == hkdf_label_spec(length, label@, context@),
{
    let mut v: Vec<u8> = Vec::new();
    push_u16(&mut v, length);
    v.push((6 + label.len()) as u8);
    let prefix: Vec<u8> = vec![0x74u8, 0x6cu8, 0x73u8, 0x31u8, 0x33u8, 0x20u8];
    append(&mut v, prefix.as_slice());
    append(&mut v, label);
    v.push(context.len() as u8);
    append(&mut v, context);
    assert(v@ =~= hkdf_label_spec(length, label@, context@));
    v
}

/// A Finished message carrying `verify_data`.
pub open spec fn finished_bytes(verify_data: Seq<u8>) -> Seq<u8> {
    seq![FINISHED, 0u8, (verify_data.len() / 256) as u8, (verify_data.len() % 256) as u8] + verify_data
}

/// Serializes the client's Finished message around its MAC.
pub fn encode_finished(verify_data: &[u8]) -> (r: Vec<u8>)
    requires
        verify_data@.len() <= u16::MAX,
    ensures
        r@ == finished_bytes(verify_data@),
{
    let n = verify_data.len();
    let mut v: Vec<u8> = vec![FINISHED, 0u8, (n / 256) as u8, (n % 256) as u8];
    append(&mut v, verify_data);
    assert(v@ =~= finished_bytes(verify_data@));
    v
}

/// Whether the server's Finished message `msg` carries exactly the
/// verify_data `expected`.
pub open spec fn finished_matches_spec(msg: Seq<u8>, expected: Seq<u8>) -> bool {
    msg.len() >= 4 && msg.subrange(4, msg.len() as int) == expected
}

/// Compares the server's Finished with the MAC expected for the transcript.
pub fn finished_matches(msg: &[u8], expected: &[u8]) -> (r: bool)
    ensures
        r == finished_matches_spec(msg@, expected@),
{
    if msg.len() < 4 || msg.len() - 4 != expected.len() {
        return false;
    }
    let mut i: usize = 0;
    let msg_len = msg.len();
    while i < expected.len()
        invariant
            msg@.len() == expected@.len() + 4,
            msg@.len() == msg_len,
            i <= expected@.len(),
            forall|j: int| 0 <= j < i ==> msg@[4 + j] == expected@[j],
        decreases expected@.len() - i,
    {
        if msg[4 + i] != expected[i] {
            assert(msg@.subrange(4, msg@.len() as int)[i as int] != expected@[i as int]);
            return false;
        }
        i = i + 1;
    }
    assert(msg@.subrange(4, msg@.len() as int) =~= expected@);
    true
}

} // verus!
