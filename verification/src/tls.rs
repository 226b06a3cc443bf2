//! The TLS adapter: an opaque record engine (rustls) fed through a small set
//! of trusted entry points, with the chunking and draining logic around it
//! verified.
//!
//! Plaintext handed to the engine is cut into blocks of at most
//! [`crate::TLS_CHUNKS`] bytes; `tls_chunked_write` proves that discipline
//! and that the blocks, in order, are exactly the caller's data.

use vstd::prelude::*;

use crate::errors::Error;

verus! {

use std::io::Read;
use std::io::Write;

/// rustls's session type, carrying one TLS endpoint (client or server).
/// Opaque here: nothing of its inside is visible to verification.
#[verifier::external_type_specification]
#[verifier::external_body]
pub struct ExTlsConnection(rustls::Connection);

/// rustls's server-side configuration.
#[verifier::external_type_specification]
#[verifier::external_body]
pub struct ExServerConfig(rustls::ServerConfig);

/// rustls's client-side configuration.
#[verifier::external_type_specification]
#[verifier::external_body]
pub struct ExClientConfig(rustls::ClientConfig);

/// rustls's store of trusted root certificates.
#[verifier::external_type_specification]
#[verifier::external_body]
pub struct ExRootCertStore(rustls::RootCertStore);

/// One item of a PEM file, as the parser reports it.
#[derive(Debug, Clone)]
pub enum PemItem {
    /// A DER-encoded x509 certificate.
    Cert(Vec<u8>),
    /// A PKCS#1 RSA private key.
    Rsa(Vec<u8>),
    /// A PKCS#8 private key.
    Pkcs8(Vec<u8>),
    /// A SEC1 private key.
    Ec(Vec<u8>),
    /// Anything else the parser recognises.
    Other,
}

/// The certificates that PEM-parsing the given bytes yields, in file order.
pub uninterp spec fn certs_of(b: Seq<u8>) -> Seq<Seq<u8>>;

/// Whether rustls_pemfile::certs parses the given bytes without a framing
/// error.
pub uninterp spec fn certs_parse_ok(b: Seq<u8>) -> bool;

/// The items that PEM-parsing the given bytes yields, in file order.
pub uninterp spec fn pem_items_of(b: Seq<u8>) -> Seq<PemItem>;

/// Whether rustls_pemfile::read_all parses the given bytes without a
/// framing error.
pub uninterp spec fn pem_parse_ok(b: Seq<u8>) -> bool;

/// Relies on rustls_pemfile::certs: returns the DER certificates found in
/// the PEM bytes, in file order; it fails, deterministically in the bytes,
/// exactly on malformed PEM framing.
#[verifier::external_body]
pub fn pem_certs(bytes: &[u8]) -> (r: Result<Vec<Vec<u8>>, Error>)
    ensures
        r is Ok <==> certs_parse_ok(bytes@),
        r matches Ok(v) ==> v.deep_view() == certs_of(bytes@),
        r is Err ==> (r matches Err(e) && e == Error::TLSError),
{
    let mut rd: &[u8] = bytes;
    match rustls_pemfile::certs(&mut rd) {
        Ok(v) => Ok(v),
        Err(_) => Err(Error::TLSError),
    }
}

/// Relies on rustls_pemfile::read_all: returns every PEM item found in the
/// bytes, in file order; it fails, deterministically in the bytes, exactly
/// on malformed PEM framing.
#[verifier::external_body]
pub fn pem_items(bytes: &[u8]) -> (r: Result<Vec<PemItem>, Error>)
    ensures
        r is Ok <==> pem_parse_ok(bytes@),
        r matches Ok(v) ==> v@ == pem_items_of(bytes@),
        r is Err ==> (r matches Err(e) && e == Error::TLSError),
{
    let mut rd: &[u8] = bytes;
    match rustls_pemfile::read_all(&mut rd) {
        Err(_) => Err(Error::TLSError),
        Ok(items) => Ok(
            items.into_iter().map(
                |it| match it {
                    rustls_pemfile::Item::X509Certificate(c) => PemItem::Cert(c),
                    rustls_pemfile::Item::RSAKey(k) => PemItem::Rsa(k),
                    rustls_pemfile::Item::PKCS8Key(k) => PemItem::Pkcs8(k),
                    rustls_pemfile::Item::ECKey(k) => PemItem::Ec(k),
                    _ => PemItem::Other,
                },
            ).collect(),
        ),
    }
}

/// The first usable private key among the parsed items: the first PKCS#1 or
/// PKCS#8 key, in file order.
pub open spec fn first_private_key(items: Seq<PemItem>) -> Option<Seq<u8>>
    decreases items.len(),
{
    if items.len() == 0 {
        Option::None
    } else {
        match items[0] {
            PemItem::Rsa(k) => Option::Some(k@),
            PemItem::Pkcs8(k) => Option::Some(k@),
            _ => first_private_key(items.skip(1)),
        }
    }
}

/// Pick the private key out of PEM bytes: the first PKCS#1 or PKCS#8 key in
/// file order. Succeeds exactly when the bytes parse and hold such a key;
/// fails with a TLS error otherwise.
pub fn load_private_key(pem: &[u8]) -> (r: Result<Vec<u8>, Error>)
    ensures
        r matches Ok(k) ==> first_private_key(pem_items_of(pem@)) == Option::Some(k@),
        r is Ok <==> (pem_parse_ok(pem@) && first_private_key(pem_items_of(pem@)) is Some),
        r is Err ==> r == Result::<Vec<u8>, Error>::Err(Error::TLSError),
{
    let items = match pem_items(pem) {
        Ok(items) => items,
        Err(_) => {
            return Err(Error::TLSError);
        },
    };
    let ghost all = items@;
    proof {
        assert(all.skip(0) =~= all);
    }
    let mut i: usize = 0;
    while i < items.len()
        invariant
            0 <= i <= all.len(),
            items@ == all,
            all == pem_items_of(pem@),
            pem_parse_ok(pem@),
            first_private_key(all) == first_private_key(all.skip(i as int)),
        decreases all.len() - i,
    {
        proof {
            assert(all.skip(i as int)[0] == all[i as int]);
        }
        match &items[i] {
            PemItem::Rsa(k) => {
                proof {
                    assert(first_private_key(all.skip(i as int)) == Option::Some(k@));
                }
                let kc = k.clone();
                proof {
                    assert forall|j: int| 0 <= j < kc@.len() implies kc@[j] == k@[j] by {}
                    assert(kc@ =~= k@);
                }
                return Ok(kc);
            },
            PemItem::Pkcs8(k) => {
                proof {
                    assert(first_private_key(all.skip(i as int)) == Option::Some(k@));
                }
                let kc = k.clone();
                proof {
                    assert forall|j: int| 0 <= j < kc@.len() implies kc@[j] == k@[j] by {}
                    assert(kc@ =~= k@);
                }
                return Ok(kc);
            },
            _ => {},
        }
        proof {
            assert(all.skip(i as int).skip(1) =~= all.skip(i + 1));
        }
        i = i + 1;
    }
    proof {
        assert(all.skip(i as int).len() == 0);
    }
    Err(Error::TLSError)
}

/// Whether rustls's `with_single_cert` accepts the certificate chain and
/// DER private key; a function of the two values alone.
pub uninterp spec fn server_config_accepts(chain: Seq<Seq<u8>>, key: Seq<u8>) -> bool;

/// Relies on rustls's ServerConfig builder with safe defaults, no client
/// authentication, and the given single certificate chain and DER private
/// key; `with_single_cert` accepts or rejects the pair deterministically.
#[verifier::external_body]
pub fn make_server_config(certs: Vec<Vec<u8>>, key: Vec<u8>) -> (r: Result<
    rustls::ServerConfig,
    Error,
>)
    ensures
        r is Ok <==> server_config_accepts(certs.deep_view(), key@),
        r is Err ==> (r matches Err(e) && e == Error::TLSError),
{
    let chain: Vec<rustls::Certificate> = certs.into_iter().map(rustls::Certificate).collect();
    rustls::ServerConfig::builder().with_safe_defaults().with_no_client_auth().with_single_cert(
        chain,
        rustls::PrivateKey(key),
    ).map_err(|_| Error::TLSError)
}

/// Relies on rustls::RootCertStore::empty: a store with no roots.
#[verifier::external_body]
pub fn root_store_new() -> rustls::RootCertStore {
    rustls::RootCertStore::empty()
}

/// Whether rustls::RootCertStore::add accepts the DER certificate as a
/// trust anchor; a function of the bytes alone.
pub uninterp spec fn root_accepted(cert: Seq<u8>) -> bool;

/// Relies on rustls::RootCertStore::add: adds one DER certificate to the
/// store; it fails, deterministically in the bytes, exactly when they
/// cannot be read as a trust anchor.
#[verifier::external_body]
pub fn root_store_add(store: &mut rustls::RootCertStore, cert: &Vec<u8>) -> (r: Result<(), Error>)
    ensures
        r is Ok <==> root_accepted(cert@),
        r is Err ==> (r matches Err(e) && e == Error::SetupError),
{
    match store.add(&rustls::Certificate(cert.clone())) {
        Ok(()) => Ok(()),
        Err(_) => Err(Error::SetupError),
    }
}

/// Relies on rustls's ClientConfig builder with safe default cipher suites,
/// key exchange groups and protocol versions, the given roots, and no client
/// authentication. It succeeds: the default suites always cover the default
/// protocol versions.
#[verifier::external_body]
pub fn make_client_config(roots: rustls::RootCertStore) -> (r: Result<
    rustls::ClientConfig,
    Error,
>)
    ensures
        r is Ok,
{
    let cfg = rustls::ClientConfig::builder()
        .with_safe_default_cipher_suites()
        .with_safe_default_kx_groups()
        .with_safe_default_protocol_versions()
        .map_err(|_| Error::TLSError)?
        .with_root_certificates(roots)
        .with_no_client_auth();
    Ok(cfg)
}

/// Relies on rustls::ServerConnection::new: a fresh server session under the
/// given configuration.
#[verifier::external_body]
pub fn server_session(config: &rustls::ServerConfig) -> (r: Result<
    rustls::Connection,
    Error,
>) {
    match rustls::ServerConnection::new(std::sync::Arc::new(config.clone())) {
        Ok(c) => Ok(rustls::Connection::Server(c)),
        Err(_) => Err(Error::TLSError),
    }
}

/// Whether the string is a valid server name for rustls's SNI and
/// certificate checks; a function of the characters alone.
pub uninterp spec fn server_name_ok(s: Seq<char>) -> bool;

/// Relies on rustls::ClientConnection::new and ServerName::try_from: a
/// fresh client session under the given configuration, verifying the peer
/// as `name`. The name is accepted or rejected deterministically; a
/// session is built only for an accepted name.
#[verifier::external_body]
pub fn client_session(config: &rustls::ClientConfig, name: &str) -> (r: Result<
    rustls::Connection,
    Error,
>)
    ensures
        !server_name_ok(name@) ==> r is Err,
        r is Ok ==> server_name_ok(name@),
        r is Err ==> (r matches Err(e) && e == Error::TLSError),
{
    let sn: rustls::ServerName = match name.try_into() {
        Ok(sn) => sn,
        Err(_) => {
            return Err(Error::TLSError);
        },
    };
    match rustls::ClientConnection::new(std::sync::Arc::new(config.clone()), sn) {
        Ok(c) => Ok(rustls::Connection::Client(c)),
        Err(_) => Err(Error::TLSError),
    }
}

/// Relies on rustls's read_tls: feeds ciphertext bytes into the session and
/// returns how many it consumed, at most the bytes offered.
#[verifier::external_body]
pub fn tls_read_tls(conn: &mut rustls::Connection, data: &[u8]) -> (r: Result<usize, Error>)
    ensures
        r matches Ok(n) ==> n <= data@.len(),
{
    let mut rd: &[u8] = data;
    match conn.read_tls(&mut rd) {
        Ok(n) => Ok(n),
        Err(_) => Err(Error::IOError),
    }
}

/// Relies on rustls's process_new_packets: decrypts what was fed in and
/// returns how many plaintext bytes are ready to read; an error means the
/// peer sent invalid data and the connection must close.
#[verifier::external_body]
pub fn tls_process(conn: &mut rustls::Connection) -> (r: Result<usize, Error>) {
    match conn.process_new_packets() {
        Ok(state) => Ok(state.plaintext_bytes_to_read()),
        Err(_) => Err(Error::TLSError),
    }
}

/// Relies on rustls's reader().read_exact: moves exactly `n` ready plaintext
/// bytes into the front of `buf`, which keeps its length.
#[verifier::external_body]
pub fn tls_read_plaintext(conn: &mut rustls::Connection, buf: &mut Vec<u8>, n: usize) -> (r: Result<
    (),
    Error,
>)
    requires
        n <= old(buf)@.len(),
    ensures
        final(buf)@.len() == old(buf)@.len(),
{
    match conn.reader().read_exact(&mut buf[..n]) {
        Ok(()) => Ok(()),
        Err(_) => Err(Error::IOError),
    }
}

/// Relies on rustls's writer().write_all: buffers plaintext into the
/// session for encryption. Each handoff stays within the adapter's chunk
/// bound, keeping the record engine's working set small.
#[verifier::external_body]
pub fn tls_write_plaintext(conn: &mut rustls::Connection, data: &[u8]) -> (r: Result<(), Error>)
    requires
        data@.len() <= crate::TLS_CHUNKS,
{
    match conn.writer().write_all(data) {
        Ok(()) => Ok(()),
        Err(_) => Err(Error::IOError),
    }
}

/// Relies on rustls's write_tls writing to a Vec: appends the session's
/// pending outbound TLS bytes to `out` and returns how many were appended.
#[verifier::external_body]
pub fn tls_write_tls(conn: &mut rustls::Connection, out: &mut Vec<u8>) -> (r: Result<usize, Error>)
    ensures
        r matches Ok(n) ==> final(out)@.len() == old(out)@.len() + n && final(out)@.take(
            old(out)@.len() as int,
        ) == old(out)@,
{
    match conn.write_tls(out) {
        Ok(n) => Ok(n),
        Err(_) => Err(Error::IOError),
    }
}

/// The blocks a plaintext buffer is cut into before it is handed to the
/// record engine: full blocks of `TLS_CHUNKS` bytes, then the remainder.
/// An empty buffer still makes one (empty) handoff.
pub open spec fn tls_chunks(data: Seq<u8>) -> Seq<Seq<u8>>
    decreases data.len(),
{
    if data.len() <= crate::TLS_CHUNKS {
        seq![data]
    } else {
        seq![data.take(crate::TLS_CHUNKS as int)] + tls_chunks(data.skip(crate::TLS_CHUNKS as int))
    }
}

/// Plaintext chunking law: every block handed to the record engine holds at
/// most `TLS_CHUNKS` bytes, and the blocks, joined in order, are exactly the
/// original data.
pub proof fn lemma_tls_chunks(data: Seq<u8>)
    ensures
        tls_chunks(data).len() >= 1,
        forall|i: int|
            0 <= i < tls_chunks(data).len() ==> #[trigger] tls_chunks(data)[i].len()
                <= crate::TLS_CHUNKS,
        tls_chunks(data).flatten() == data,
    decreases data.len(),
{
    if data.len() <= crate::TLS_CHUNKS {
        seq![data].lemma_flatten_one_element();
        assert(tls_chunks(data).flatten() =~= data);
    } else {
        let head = data.take(crate::TLS_CHUNKS as int);
        let tail = data.skip(crate::TLS_CHUNKS as int);
        lemma_tls_chunks(tail);
        let combined = seq![head] + tls_chunks(tail);
        assert(tls_chunks(data) =~= combined);
        assert(combined.first() == head);
        assert(combined.drop_first() =~= tls_chunks(tail));
        assert(combined.flatten() == head + tls_chunks(tail).flatten());
        assert(tls_chunks(data).flatten() =~= data);
    }
}

/// Feed plaintext to the record engine in order, in blocks of at most
/// `TLS_CHUNKS` bytes, draining the engine's outbound bytes after each
/// block. Returns the outbound TLS bytes to put on the socket; the ghost
/// result lists the blocks fed, which are exactly `tls_chunks(data)`.
pub fn tls_chunked_write(conn: &mut rustls::Connection, data: &[u8]) -> (r: (
    Result<Vec<u8>, Error>,
    Ghost<Seq<Seq<u8>>>,
))
    ensures
        r.0 is Ok ==> r.1@ == tls_chunks(data@),
        r.0 is Err ==> r.1@ == tls_chunks(data@).take(r.1@.len() as int),
{
    let mut wbuf: Vec<u8> = Vec::new();
    let ghost mut fed: Seq<Seq<u8>> = Seq::empty();
    proof {
        assert(data@.skip(0) =~= data@);
        assert(Seq::<Seq<u8>>::empty() + tls_chunks(data@) =~= tls_chunks(data@));
    }
    let mut start: usize = 0;
    loop
        invariant_except_break
            fed + tls_chunks(data@.skip(start as int)) == tls_chunks(data@),
        invariant
            start <= data@.len(),
        ensures
            fed == tls_chunks(data@),
        decreases data@.len() - start,
    {
        let mut end = data.len();
        if end - start > crate::TLS_CHUNKS {
            end = start + crate::TLS_CHUNKS;
        }
        let chunk = &data[start..end];
        proof {
            assert(chunk@ == data@.subrange(start as int, end as int));
        }
        match tls_write_plaintext(conn, chunk) {
            Ok(()) => {},
            Err(e) => {
                proof {
                    assert(fed =~= tls_chunks(data@).take(fed.len() as int));
                }
                return (Err(e), Ghost(fed));
            },
        }
        match tls_write_tls(conn, &mut wbuf) {
            Ok(_) => {},
            Err(e) => {
                proof {
                    assert(fed =~= tls_chunks(data@).take(fed.len() as int));
                }
                return (Err(e), Ghost(fed));
            },
        }
        proof {
            fed = fed + seq![chunk@];
            let rest = data@.skip(start as int);
            if end == data@.len() {
                assert(rest.len() <= crate::TLS_CHUNKS);
                assert(chunk@ =~= rest);
                assert(fed =~= tls_chunks(data@));
            } else {
                assert(rest.len() > crate::TLS_CHUNKS);
                assert(chunk@ =~= rest.take(crate::TLS_CHUNKS as int));
                assert(rest.skip(crate::TLS_CHUNKS as int) =~= data@.skip(end as int));
                assert(tls_chunks(rest) == seq![chunk@] + tls_chunks(data@.skip(end as int)));
                assert(fed + tls_chunks(data@.skip(end as int)) =~= tls_chunks(data@));
            }
        }
        if end == data.len() {
            break ;
        }
        start = start + crate::TLS_CHUNKS;
    }
    (Ok(wbuf), Ghost(fed))
}

/// What one pass of TLS reading produced.
pub struct TlsRead {
    /// The peer sent invalid data; the connection must close.
    pub close: bool,
    /// How many plaintext bytes sit at the front of the scratch buffer.
    pub pt_len: usize,
    /// Outbound TLS bytes (handshake or alerts) to put on the socket.
    pub outbound: Vec<u8>,
}

/// One pass of TLS reading: feed `len` ciphertext bytes from the front of
/// the scratch buffer into the engine, decrypt, and pull the ready plaintext
/// back into the front of the scratch buffer, growing it if one record's
/// plaintext outgrows it. On a record error the pass asks for a close
/// instead.
pub fn do_tls_read(conn: &mut rustls::Connection, buffer: &mut Vec<u8>, len: usize) -> (r: Result<
    TlsRead,
    Error,
>)
    requires
        len <= old(buffer)@.len(),
    ensures
        r matches Ok(t) ==> {
            &&& t.close ==> t.pt_len == 0
            &&& final(buffer)@.len() == if t.pt_len > old(buffer)@.len() {
                t.pt_len as int
            } else {
                old(buffer)@.len() as int
            }
            &&& t.pt_len <= final(buffer)@.len()
        },
        r is Err ==> final(buffer)@.len() >= old(buffer)@.len(),
{
    {
        let data = &buffer[0..len];
        match tls_read_tls(conn, data) {
            Ok(_) => {},
            Err(e) => {
                return Err(e);
            },
        }
    }
    let pt_len = match tls_process(conn) {
        Ok(n) => n,
        Err(_) => {
            // Invalid data from the peer: the caller must close the
            // connection rather than fail its whole loop.
            return Ok(TlsRead { close: true, pt_len: 0, outbound: Vec::new() });
        },
    };
    if pt_len > buffer.len() {
        buffer.resize(pt_len, 0u8);
    }
    match tls_read_plaintext(conn, buffer, pt_len) {
        Ok(()) => {},
        Err(e) => {
            return Err(e);
        },
    }
    let mut outbound: Vec<u8> = Vec::new();
    match tls_write_tls(conn, &mut outbound) {
        Ok(_) => {},
        Err(e) => {
            return Err(e);
        },
    }
    Ok(TlsRead { close: false, pt_len, outbound })
}

} // verus!
