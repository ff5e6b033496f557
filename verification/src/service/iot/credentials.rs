//! The key and the certificate of the connection, out of the container in which
//! Govee hands them over.
use vstd::prelude::*;

use crate::base64;
use crate::base64::base64_decode;
use crate::service::iot::container;
use crate::service::iot::container::{
    check_container, check_contents, encode_password, make_container, make_contents,
    open_container, read_cert_bags, read_key_bags,
};

verus! {

/// Whether `openssl` may write the private key `der` as the PEM text `pem`.
pub uninterp spec fn key_written_as(der: Seq<u8>, pem: Seq<u8>) -> bool;

/// Whether `openssl` may write the certificate `der` as the PEM text `pem`.
pub uninterp spec fn cert_written_as(der: Seq<u8>, pem: Seq<u8>) -> bool;

/// Which step of turning DER into PEM failed.
#[derive(Clone, Copy, Debug, PartialEq, Eq, Structural)]
pub enum PemError {
    Der,
    Pem,
}

/// A private key as PEM, from `openssl`'s `PKey::private_key_from_der` and
/// `private_key_to_pem_pkcs8`.
///
/// Trusted: a text that comes out is one in which OpenSSL writes this very key.
/// Which keys are accepted, and how one is written, is up to the OpenSSL library
/// that is installed, and not stated.
#[verifier::external_body]
pub(crate) fn key_to_pem(der: &Vec<u8>) -> (r: Result<Vec<u8>, PemError>)
    ensures
        r matches Ok(pem) ==> key_written_as(der@, pem@),
{
    let key = openssl::pkey::PKey::private_key_from_der(der).map_err(|_| PemError::Der)?;
    key.private_key_to_pem_pkcs8().map_err(|_| PemError::Pem)
}

/// A certificate as PEM, from `openssl`'s `X509::from_der` and `to_pem`.
///
/// Trusted: a text that comes out is one in which OpenSSL writes this very
/// certificate. Which certificates are accepted, and how one is written, is up to
/// the OpenSSL library that is installed, and not stated.
#[verifier::external_body]
pub(crate) fn cert_to_pem(der: &Vec<u8>) -> (r: Result<Vec<u8>, PemError>)
    ensures
        r matches Ok(pem) ==> cert_written_as(der@, pem@),
{
    let cert = openssl::x509::X509::from_der(der).map_err(|_| PemError::Der)?;
    cert.to_pem().map_err(|_| PemError::Pem)
}

/// Why the credentials could not be read.
#[derive(Clone, Copy, Debug, PartialEq, Eq, Structural)]
pub enum CredentialError {
    Base64,
    Container,
    KeyBags,
    Key(PemError),
    CertBags,
    Cert(PemError),
}

/// What was read of the credentials: the files to write, each in its turn, and
/// what stopped it.
#[derive(Debug)]
pub struct Credentials {
    /// What the key file is written with, one after the other.
    pub keys: Vec<Vec<u8>>,
    /// What the certificate file is written with, one after the other.
    pub certs: Vec<Vec<u8>>,
    pub error: Option<CredentialError>,
}

/// How many results come before the first error.
pub open spec fn good_results(results: Seq<Result<Vec<u8>, PemError>>) -> nat
    decreases results.len(),
{
    if results.len() == 0 {
        0
    } else if good_results(results.drop_last()) < results.len() - 1 || results.last() is Err {
        good_results(results.drop_last())
    } else {
        results.len()
    }
}

/// The texts up to the first error, and that error.
pub fn up_to_the_first_error(results: Vec<Result<Vec<u8>, PemError>>) -> (r: (
    Vec<Vec<u8>>,
    Option<PemError>,
))
    ensures
        r.0@.len() == good_results(results@),
        forall|i: int| 0 <= i < r.0@.len() ==> results@[i] == Ok::<Vec<u8>, PemError>(
            #[trigger] r.0@[i],
        ),
        match r.1 {
            Some(err) => good_results(results@) < results@.len() && results@[good_results(
                results@,
            ) as int] == Err::<Vec<u8>, PemError>(err),
            None => good_results(results@) == results@.len(),
        },
{
    let mut texts: Vec<Vec<u8>> = Vec::new();
    let mut error: Option<PemError> = None;
    let ghost all = results@;
    let mut rest = results;
    let mut reversed: Vec<Result<Vec<u8>, PemError>> = Vec::new();
    while rest.len() > 0
        invariant
            reversed@ + rest@.reverse() == all.reverse(),
        decreases rest@.len(),
    {
        let ghost before = rest@;
        let ghost moved = reversed@;
        match rest.pop() {
            Some(last) => {
                reversed.push(last);
                assert(before.reverse() =~= seq![last] + rest@.reverse());
                assert(reversed@ + rest@.reverse() =~= moved + before.reverse());
            },
            None => {},
        }
    }
    assert(reversed@ =~= all.reverse());
    let ghost mut done: int = 0;
    assert(all.take(0) =~= Seq::<Result<Vec<u8>, PemError>>::empty());
    while reversed.len() > 0
        invariant
            0 <= done <= all.len(),
            reversed@ == all.skip(done).reverse(),
            texts@.len() == good_results(all.take(done)),
            forall|i: int| 0 <= i < texts@.len() ==> all[i] == Ok::<Vec<u8>, PemError>(
                #[trigger] texts@[i],
            ),
            match error {
                Some(err) => texts@.len() < done && all[texts@.len() as int] == Err::<
                    Vec<u8>,
                    PemError,
                >(err),
                None => texts@.len() == done,
            },
        decreases reversed@.len(),
    {
        let ghost before = reversed@;
        match reversed.pop() {
            Some(next) => {
                proof {
                    assert(before.last() == all.skip(done)[0]);
                    assert(next == all[done]);
                    assert(all.take(done + 1).drop_last() =~= all.take(done));
                    assert(reversed@ =~= all.skip(done + 1).reverse());
                    done = done + 1;
                }
                match next {
                    Ok(text) => {
                        if error.is_none() {
                            texts.push(text);
                        }
                    },
                    Err(err) => {
                        if error.is_none() {
                            error = Some(err);
                        }
                    },
                }
            },
            None => {},
        }
    }
    assert(done == all.len()) by {
        assert(all.skip(done).reverse().len() == all.len() - done);
    }
    assert(all.take(all.len() as int) =~= all);
    (texts, error)
}

/// Whether the texts are those of the first keys, in order.
pub open spec fn are_keys(texts: Seq<Vec<u8>>, keys: Seq<Seq<u8>>) -> bool {
    texts.len() <= keys.len() && forall|i: int|
        0 <= i < texts.len() ==> key_written_as(keys[i], (#[trigger] texts[i])@)
}

/// Whether the texts are those of the first certificates, in order.
pub open spec fn are_certs(texts: Seq<Vec<u8>>, certs: Seq<Seq<u8>>) -> bool {
    texts.len() <= certs.len() && forall|i: int|
        0 <= i < texts.len() ==> cert_written_as(certs[i], (#[trigger] texts[i])@)
}

/// Turns keys into PEM, up to the first that cannot be.
fn keys_to_pem(keys: &Vec<Vec<u8>>) -> (r: (Vec<Vec<u8>>, Option<PemError>))
    ensures
        match r.1 {
            Some(_) => r.0@.len() < keys@.len(),
            None => r.0@.len() == keys@.len(),
        },
        forall|i: int|
            0 <= i < r.0@.len() ==> key_written_as(keys@[i]@, (#[trigger] r.0@[i])@),
{
    let mut results: Vec<Result<Vec<u8>, PemError>> = Vec::new();
    let mut stopped = false;
    let mut i: usize = 0;
    while i < keys.len() && !stopped
        invariant
            i <= keys@.len(),
            results@.len() == i,
            forall|j: int|
                0 <= j < i ==> (#[trigger] results@[j] matches Ok(pem) ==> key_written_as(
                    keys@[j]@,
                    pem@,
                )),
            stopped ==> i > 0 && results@[i - 1] is Err,
            good_results(results@) == (if stopped {
                i - 1
            } else {
                i as int
            }),
        decreases keys@.len() - i,
    {
        let result = key_to_pem(&keys[i]);
        if result.is_err() {
            stopped = true;
        }
        let ghost before = results@;
        results.push(result);
        assert(results@.drop_last() =~= before);
        i = i + 1;
    }
    up_to_the_first_error(results)
}

/// Turns certificates into PEM, up to the first that cannot be.
fn certs_to_pem(certs: &Vec<Vec<u8>>) -> (r: (Vec<Vec<u8>>, Option<PemError>))
    ensures
        match r.1 {
            Some(_) => r.0@.len() < certs@.len(),
            None => r.0@.len() == certs@.len(),
        },
        forall|i: int|
            0 <= i < r.0@.len() ==> cert_written_as(certs@[i]@, (#[trigger] r.0@[i])@),
{
    let mut results: Vec<Result<Vec<u8>, PemError>> = Vec::new();
    let mut stopped = false;
    let mut i: usize = 0;
    while i < certs.len() && !stopped
        invariant
            i <= certs@.len(),
            results@.len() == i,
            forall|j: int|
                0 <= j < i ==> (#[trigger] results@[j] matches Ok(pem) ==> cert_written_as(
                    certs@[j]@,
                    pem@,
                )),
            stopped ==> i > 0 && results@[i - 1] is Err,
            good_results(results@) == (if stopped {
                i - 1
            } else {
                i as int
            }),
        decreases certs@.len() - i,
    {
        let result = cert_to_pem(&certs[i]);
        if result.is_err() {
            stopped = true;
        }
        let ghost before = results@;
        results.push(result);
        assert(results@.drop_last() =~= before);
        i = i + 1;
    }
    up_to_the_first_error(results)
}

/// Whether nothing was read, for this reason.
pub open spec fn is_nothing_but(read: Credentials, error: CredentialError) -> bool {
    read.keys@.len() == 0 && read.certs@.len() == 0 && read.error == Some(error)
}

fn nothing_but(error: CredentialError) -> (r: Credentials)
    ensures
        is_nothing_but(r, error),
{
    Credentials { keys: Vec::new(), certs: Vec::new(), error: Some(error) }
}

/// Whether this is what was read of the keys and certificates of a container's
/// contents: first the keys, then the certificates, up to the first error.
pub open spec fn are_credentials(
    read: Credentials,
    keys: Option<Seq<Seq<u8>>>,
    certs: Option<Seq<Seq<u8>>>,
) -> bool {
    match keys {
        Some(keys) => {
            &&& are_keys(read.keys@, keys)
            &&& certs matches Some(certs) ==> are_certs(read.certs@, certs)
            &&& match read.error {
                Some(CredentialError::Key(_)) => read.keys@.len() < keys.len()
                    && read.certs@.len() == 0,
                Some(CredentialError::CertBags) => read.keys@.len() == keys.len()
                    && read.certs@.len() == 0 && certs is None,
                Some(CredentialError::Cert(_)) => read.keys@.len() == keys.len() && (
                certs matches Some(certs) && read.certs@.len() < certs.len()),
                None => read.keys@.len() == keys.len() && (certs matches Some(certs)
                    && read.certs@.len() == certs.len()),
                _ => false,
            }
        },
        None => is_nothing_but(read, CredentialError::KeyBags),
    }
}

/// The contents of a container, from which keys and certificates are read, if it
/// has any.
pub open spec fn contents_of(data: Seq<u8>, password: Seq<char>) -> Option<Seq<u8>> {
    match container::pfx_contents(
        container::standard_container(data),
        container::password_bytes(password),
    ) {
        Some(contents) => Some(container::standard_contents(contents)),
        None => None,
    }
}

/// Reads the keys and the certificates of a container's contents.
fn read_contents(contents: &[u8], password: &str) -> (r: Credentials)
    requires
        password@.len() <= usize::MAX / 32,
        container::are_safe_contents(contents@, container::password_bytes(password@)),
    ensures
        are_credentials(
            r,
            container::pfx_key_bags(contents@, password@),
            container::pfx_cert_bags(contents@, password@),
        ),
{
    let keys = match read_key_bags(contents, password) {
        Some(keys) => keys,
        None => {
            return nothing_but(CredentialError::KeyBags);
        },
    };
    let (key_texts, key_error) = keys_to_pem(&keys);
    if let Some(err) = key_error {
        return Credentials {
            keys: key_texts,
            certs: Vec::new(),
            error: Some(CredentialError::Key(err)),
        };
    }
    let certs = match read_cert_bags(contents, password) {
        Some(certs) => certs,
        None => {
            return Credentials {
                keys: key_texts,
                certs: Vec::new(),
                error: Some(CredentialError::CertBags),
            };
        },
    };
    let (cert_texts, cert_error) = certs_to_pem(&certs);
    let error: Option<CredentialError> = match cert_error {
        Some(err) => Some(CredentialError::Cert(err)),
        None => None,
    };
    Credentials { keys: key_texts, certs: cert_texts, error }
}

/// Reads the credentials out of a base64 text: first the keys, then the
/// certificates, up to the first error.
///
/// A container that cannot be read safely is refused as one that is none, and
/// one whose contents cannot be as one whose keys cannot be read.
pub fn iot_credentials(p12: &str, password: &str) -> (r: Credentials)
    requires
        p12@.len() <= usize::MAX / 32,
        password@.len() <= usize::MAX / 32,
    ensures
        match base64::base64_data(p12@) {
            Some(data) => {
                let opened = container::standard_container(data);
                if !container::is_safe_container(opened) || !container::pfx_parses(opened) {
                    is_nothing_but(r, CredentialError::Container)
                } else {
                    match contents_of(data, password@) {
                        Some(contents) => if container::are_safe_contents(
                            contents,
                            container::password_bytes(password@),
                        ) {
                            are_credentials(
                                r,
                                container::pfx_key_bags(contents, password@),
                                container::pfx_cert_bags(contents, password@),
                            )
                        } else {
                            is_nothing_but(r, CredentialError::KeyBags)
                        },
                        None => is_nothing_but(r, CredentialError::KeyBags),
                    }
                }
            },
            None => is_nothing_but(r, CredentialError::Base64),
        },
{
    let data = match base64_decode(p12) {
        Ok(data) => data,
        Err(_) => {
            return nothing_but(CredentialError::Base64);
        },
    };
    let container = make_container(data.as_slice());
    if !check_container(container.as_slice()) {
        return nothing_but(CredentialError::Container);
    }
    let secret = encode_password(password);
    match open_container(container.as_slice(), secret.as_slice()) {
        Ok(Some(opened)) => {
            let contents = make_contents(opened.as_slice());
            if !check_contents(contents.as_slice(), secret.as_slice()) {
                return nothing_but(CredentialError::KeyBags);
            }
            read_contents(contents.as_slice(), password)
        },
        Ok(None) => nothing_but(CredentialError::KeyBags),
        Err(_) => nothing_but(CredentialError::Container),
    }
}

/// All keys and all certificates are there exactly if there was no error. A certificate
/// is there only if every key is, and each file holds its own items from the first on.
pub proof fn how_far_credentials_were_read(
    read: Credentials,
    keys: Option<Seq<Seq<u8>>>,
    certs: Option<Seq<Seq<u8>>>,
    i: int,
)
    requires
        are_credentials(read, keys, certs),
    ensures
        read.error is None <==> keys is Some && certs is Some && read.keys@.len() == keys->0.len()
            && read.certs@.len() == certs->0.len(),
        keys is None ==> read.keys@.len() == 0 && read.certs@.len() == 0 && read.error == Some(
            CredentialError::KeyBags,
        ),
        read.certs@.len() > 0 ==> keys is Some && certs is Some && read.keys@.len()
            == keys->0.len(),
        certs is None && keys is Some && read.keys@.len() == keys->0.len() ==> read.error == Some(
            CredentialError::CertBags,
        ),
        0 <= i < read.keys@.len() ==> key_written_as(keys->0[i], read.keys@[i]@),
        0 <= i < read.certs@.len() ==> cert_written_as(certs->0[i], read.certs@[i]@),
{
}

/// As many results are good as come before the first error: all that come before are
/// texts, and the next, if there is one, is an error.
pub proof fn good_results_end_at_the_first_error(results: Seq<Result<Vec<u8>, PemError>>, i: int)
    requires
        0 <= i < results.len(),
    ensures
        good_results(results) <= results.len(),
        i < good_results(results) ==> results[i] is Ok,
        i == good_results(results) ==> results[i] is Err,
    decreases results.len(),
{
    let head = results.drop_last();
    if head.len() == 0 {
        assert(good_results(head) == 0);
    } else {
        if i < head.len() {
            good_results_end_at_the_first_error(head, i);
        } else {
            good_results_end_at_the_first_error(head, head.len() - 1);
        }
    }
}

} // verus!
