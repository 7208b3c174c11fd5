use vstd::prelude::*;
use vstd::slice::slice_to_vec;

verus! {

/// What `rustls_pemfile::certs` yields for a PEM text: for each certificate
/// section, in order, its DER bytes, or `None` where reading a section failed.
pub uninterp spec fn pem_certificate_items(pem: Seq<u8>) -> Seq<Option<Seq<u8>>>;

/// What `rustls_pemfile::pkcs8_private_keys` yields for a PEM text: for each
/// PKCS #8 private key section, in order, its DER bytes, or `None` where
/// reading a section failed.
pub uninterp spec fn pem_pkcs8_key_items(pem: Seq<u8>) -> Seq<Option<Seq<u8>>>;

/// Reads the certificate sections of a PEM text.
///
/// Trusted: calls `rustls_pemfile::certs` on the bytes and keeps, for each
/// item, the certificate's DER bytes or `None` for an error. The contract
/// names the result; the PEM grammar is not stated.
#[verifier::external_body]
fn read_pem_certificates(pem: &[u8]) -> (items: Vec<Option<Vec<u8>>>)
    ensures
        items.deep_view() == pem_certificate_items(pem@),
{
    let mut reader: &[u8] = pem;
    let mut items = Vec::new();
    for item in rustls_pemfile::certs(&mut reader) {
        items.push(match item {
            Ok(cert) => Some(cert.to_vec()),
            Err(_) => None,
        });
    }
    items
}

/// Reads the PKCS #8 private key sections of a PEM text.
///
/// Trusted: calls `rustls_pemfile::pkcs8_private_keys` on the bytes and keeps,
/// for each item, the key's DER bytes or `None` for an error. The contract
/// names the result; the PEM grammar is not stated.
#[verifier::external_body]
fn read_pem_pkcs8_keys(pem: &[u8]) -> (items: Vec<Option<Vec<u8>>>)
    ensures
        items.deep_view() == pem_pkcs8_key_items(pem@),
{
    let mut reader: &[u8] = pem;
    let mut items = Vec::new();
    for item in rustls_pemfile::pkcs8_private_keys(&mut reader) {
        items.push(match item {
            Ok(key) => Some(key.secret_pkcs8_der().to_vec()),
            Err(_) => None,
        });
    }
    items
}

/// Why no certificate chain or private key could be taken from a PEM text.
#[derive(Debug, PartialEq, Eq)]
pub enum CertError {
    /// The text holds no certificate that could be read.
    NoCertificates,
    /// The text holds no PKCS #8 private key that could be read.
    NoPrivateKey,
}

/// The items that were read successfully, in order.
pub open spec fn ok_items(items: Seq<Option<Seq<u8>>>) -> Seq<Seq<u8>>
    decreases items.len(),
{
    if items.len() == 0 {
        Seq::empty()
    } else {
        let rest = ok_items(items.drop_last());
        match items.last() {
            Some(x) => rest.push(x),
            None => rest,
        }
    }
}

/// The certificate chain: every certificate read, if there is at least one.
pub open spec fn chain_of(items: Seq<Option<Seq<u8>>>) -> Result<Seq<Seq<u8>>, CertError> {
    if ok_items(items).len() == 0 {
        Err(CertError::NoCertificates)
    } else {
        Ok(ok_items(items))
    }
}

/// The private key: the first key read, if there is one.
pub open spec fn first_key_of(items: Seq<Option<Seq<u8>>>) -> Result<Seq<u8>, CertError> {
    if ok_items(items).len() == 0 {
        Err(CertError::NoPrivateKey)
    } else {
        Ok(ok_items(items)[0])
    }
}

/// The items read successfully from two runs of items, one after the other,
/// are those of the first run followed by those of the second.
proof fn lemma_ok_items_concat(a: Seq<Option<Seq<u8>>>, b: Seq<Option<Seq<u8>>>)
    ensures
        ok_items(a + b) == ok_items(a) + ok_items(b),
    decreases b.len(),
{
    if b.len() == 0 {
        assert(a + b =~= a);
        assert(ok_items(a) + Seq::<Seq<u8>>::empty() =~= ok_items(a));
    } else {
        lemma_ok_items_concat(a, b.drop_last());
        assert((a + b).drop_last() =~= a + b.drop_last());
        assert((a + b).last() == b.last());
        match b.last() {
            Some(x) => {
                assert(ok_items(a) + ok_items(b.drop_last()).push(x) =~= (ok_items(a) + ok_items(
                    b.drop_last(),
                )).push(x));
            },
            None => {},
        }
    }
}

/// The chain holds every certificate read, in the order read: with nothing
/// read there is no chain; a certificate read after others joins the end of
/// their chain (or starts one); an item that could not be read changes
/// nothing.
pub proof fn lemma_chain_keeps_every_certificate(items: Seq<Option<Seq<u8>>>, x: Seq<u8>)
    ensures
        chain_of(Seq::empty()) == Err::<Seq<Seq<u8>>, CertError>(CertError::NoCertificates),
        chain_of(items.push(Some(x))) == Ok::<Seq<Seq<u8>>, CertError>(
            match chain_of(items) {
                Ok(c) => c.push(x),
                Err(_) => seq![x],
            },
        ),
        chain_of(items.push(None)) == chain_of(items),
{
    assert(items.push(Some(x)).drop_last() =~= items);
    assert(items.push(None).drop_last() =~= items);
    if ok_items(items).len() == 0 {
        assert(ok_items(items).push(x) =~= seq![x]);
    }
}

/// The key is the first item read successfully, whole: a leading item that
/// could not be read is passed over, a leading key is the answer whatever
/// follows, and with nothing read there is no key.
pub proof fn lemma_key_is_first_read(x: Seq<u8>, rest: Seq<Option<Seq<u8>>>)
    ensures
        first_key_of(Seq::empty()) == Err::<Seq<u8>, CertError>(CertError::NoPrivateKey),
        first_key_of(seq![Some(x)] + rest) == Ok::<Seq<u8>, CertError>(x),
        first_key_of(seq![None::<Seq<u8>>] + rest) == first_key_of(rest),
{
    let one = seq![Some(x)];
    lemma_ok_items_concat(one, rest);
    assert(one.drop_last() =~= Seq::<Option<Seq<u8>>>::empty());
    assert(ok_items(one) =~= seq![x]);
    assert((ok_items(one) + ok_items(rest))[0] == x);
    let none = seq![None::<Seq<u8>>];
    lemma_ok_items_concat(none, rest);
    assert(none.drop_last() =~= Seq::<Option<Seq<u8>>>::empty());
    assert(ok_items(none) =~= Seq::<Seq<u8>>::empty());
    assert(ok_items(none) + ok_items(rest) =~= ok_items(rest));
}

/// Keeps the items that were read successfully.
fn keep_ok_items(items: &Vec<Option<Vec<u8>>>) -> (out: Vec<Vec<u8>>)
    ensures
        out.deep_view() == ok_items(items.deep_view()),
{
    let mut out: Vec<Vec<u8>> = Vec::new();
    let mut i: usize = 0;
    assert(items.deep_view().take(0) =~= Seq::<Option<Seq<u8>>>::empty());
    assert(out.deep_view() =~= Seq::<Seq<u8>>::empty());
    while i < items.len()
        invariant
            i <= items.len(),
            out.deep_view() == ok_items(items.deep_view().take(i as int)),
        decreases items.len() - i,
    {
        let ghost before = out.deep_view();
        assert(items.deep_view().take(i + 1).drop_last() =~= items.deep_view().take(i as int));
        match &items[i] {
            Some(der) => {
                let copy = slice_to_vec(der.as_slice());
                assert(copy.deep_view() =~= der.deep_view());
                out.push(copy);
                assert(out.deep_view() =~= before.push(der.deep_view()));
            },
            None => {},
        }
        i += 1;
    }
    assert(items.deep_view().take(items.len() as int) =~= items.deep_view());
    out
}

/// The certificate chain among the items read from a PEM text: the ones
/// read successfully, and an error when there are none.
pub fn select_certs(items: &Vec<Option<Vec<u8>>>) -> (res: Result<Vec<Vec<u8>>, CertError>)
    ensures
        match res {
            Ok(chain) => chain_of(items.deep_view()) == Ok::<Seq<Seq<u8>>, CertError>(
                chain.deep_view(),
            ),
            Err(e) => chain_of(items.deep_view()) == Err::<Seq<Seq<u8>>, CertError>(e),
        },
{
    let cert_chain = keep_ok_items(items);
    if cert_chain.len() == 0 {
        Err(CertError::NoCertificates)
    } else {
        Ok(cert_chain)
    }
}

/// The private key among the items read from a PEM text: the first one read
/// successfully, and an error when there is none.
pub fn select_key(items: &Vec<Option<Vec<u8>>>) -> (res: Result<Vec<u8>, CertError>)
    ensures
        match res {
            Ok(key) => first_key_of(items.deep_view()) == Ok::<Seq<u8>, CertError>(key@),
            Err(e) => first_key_of(items.deep_view()) == Err::<Seq<u8>, CertError>(e),
        },
{
    let keys = keep_ok_items(items);
    if keys.len() == 0 {
        Err(CertError::NoPrivateKey)
    } else {
        let key = slice_to_vec(keys[0].as_slice());
        assert(keys.deep_view()[0] =~= key@);
        Ok(key)
    }
}

/// The certificate chain that a PEM text holds.
pub fn certs_from_pem(pem: &[u8]) -> (res: Result<Vec<Vec<u8>>, CertError>)
    ensures
        match res {
            Ok(chain) => chain_of(pem_certificate_items(pem@)) == Ok::<Seq<Seq<u8>>, CertError>(
                chain.deep_view(),
            ),
            Err(e) => chain_of(pem_certificate_items(pem@)) == Err::<Seq<Seq<u8>>, CertError>(e),
        },
{
    let items = read_pem_certificates(pem);
    select_certs(&items)
}

/// The PKCS #8 private key that a PEM text holds: its first one.
pub fn key_from_pem(pem: &[u8]) -> (res: Result<Vec<u8>, CertError>)
    ensures
        match res {
            Ok(key) => first_key_of(pem_pkcs8_key_items(pem@)) == Ok::<Seq<u8>, CertError>(key@),
            Err(e) => first_key_of(pem_pkcs8_key_items(pem@)) == Err::<Seq<u8>, CertError>(e),
        },
{
    let items = read_pem_pkcs8_keys(pem);
    select_key(&items)
}

} // verus!
