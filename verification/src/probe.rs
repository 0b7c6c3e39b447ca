//! The credential prober: one pair in, one outcome out.
//!
//! A probe has two halves around the connection attempt, which only the
//! driver can make. [`prepare_probe`] derives the key and says what to
//! connect with; [`conclude_probe`] classifies what the connection attempt
//! returned.

use vstd::prelude::*;
use crate::types::{
    Arguments, CredentialPair, KeyDataView, KeyInfo, KeyRequest, OutcomeView, PairView,
    PrivateKeyData, ProbeOutcome,
};
use crate::keys::{derived_view, key_size_accepted, KeyError};

verus! {

/// The reason given when no key could be derived for a pair.
pub open spec fn key_failure_reason() -> Seq<char> {
    "key generation failed"@
}

/// What to open a session with.
#[derive(Debug)]
pub struct ConnectRequest {
    /// Target, as `<ipaddress>:<port>`.
    pub host: String,
    pub username: String,
    pub password: String,
    /// The key derived from the password.
    pub private_key: String,
}

/// The kind of error that a connection attempt reported.
#[derive(Debug, Clone, Copy, PartialEq, Eq, Structural)]
pub enum ConnectErrorKind {
    /// The server rejected the credentials.
    Auth,
    /// The attempt timed out.
    Timeout,
    /// The connection could not be made or broke.
    Io,
    /// The two sides could not agree on a protocol version or on keys.
    Handshake,
    /// Anything else.
    Other,
}

/// An error of a connection attempt.
#[derive(Debug)]
pub struct ConnectError {
    pub kind: ConnectErrorKind,
    /// The error in words.
    pub reason: String,
}

/// The outcome of a probe whose connection attempt returned `reply`.
pub open spec fn outcome_of(
    username: Seq<char>,
    password: Seq<char>,
    private_key: Seq<char>,
    reply: Result<(), (ConnectErrorKind, Seq<char>)>,
) -> OutcomeView {
    match reply {
        Ok(_) => OutcomeView::Success(KeyDataView { user: username, password, private_key }),
        Err((ConnectErrorKind::Auth, _)) => OutcomeView::AuthFailed,
        Err((_, reason)) => OutcomeView::TransportError(reason),
    }
}

/// The view of what a connection attempt returned.
pub open spec fn reply_view(reply: Result<(), ConnectError>) -> Result<
    (),
    (ConnectErrorKind, Seq<char>),
> {
    match reply {
        Ok(_) => Ok(()),
        Err(error) => Err((error.kind, error.reason@)),
    }
}

/// The key request for a pair: the algorithm, bit strength and cipher of
/// the run, and the pair's password, as it is, for passphrase.
pub fn key_request(pair: &CredentialPair, info: &KeyInfo) -> (request: KeyRequest)
    ensures
        request.algorithm == info.algo,
        request.bits == info.bits,
        request.cipher == info.cipher,
        request.passphrase@ == pair.password@,
{
    KeyRequest {
        algorithm: info.algo,
        bits: info.bits,
        cipher: info.cipher,
        passphrase: pair.password.clone(),
    }
}

/// What a probe goes on with once the key derivation has returned: with a
/// key, the request to connect to the target as the pair with that key;
/// without one, the transport error that says so.
pub open spec fn prepared_of(
    pair: PairView,
    host: Seq<char>,
    derived: Result<Seq<char>, KeyError>,
) -> Result<(Seq<char>, Seq<char>, Seq<char>, Seq<char>), OutcomeView> {
    match derived {
        Ok(private_key) => Ok((host, pair.username, pair.password, private_key)),
        Err(_) => Err(OutcomeView::TransportError(key_failure_reason())),
    }
}

/// The view of a prepared probe: host, username, password and key of the
/// request, or the outcome in its place.
pub open spec fn prepared_view(prepared: Result<ConnectRequest, ProbeOutcome>) -> Result<
    (Seq<char>, Seq<char>, Seq<char>, Seq<char>),
    OutcomeView,
> {
    match prepared {
        Ok(request) => Ok(
            (request.host@, request.username@, request.password@, request.private_key@),
        ),
        Err(outcome) => Err(outcome@),
    }
}

/// Takes what the key derivation returned for a pair. With a key the probe
/// goes on to connect: to the target of the run, as the pair, with the
/// key. Without one the pair is used up with no connection attempt, and
/// the outcome is a transport error that says so.
pub fn connect_request(pair: &CredentialPair, info: &KeyInfo, derived: Result<String, KeyError>) -> (prepared:
    Result<ConnectRequest, ProbeOutcome>)
    ensures
        prepared_view(prepared) == prepared_of(pair@, info.ip@, derived_view(derived)),
{
    match derived {
        Ok(private_key) => Ok(
            ConnectRequest {
                host: info.ip.clone(),
                username: pair.username.clone(),
                password: pair.password.clone(),
                private_key,
            },
        ),
        Err(_) => Err(ProbeOutcome::TransportError("key generation failed".to_owned())),
    }
}

/// First half of a probe: makes the key request for the pair, derives the
/// key and says what to connect with.
///
/// The key is random, so which of the two comes back is not determined by
/// the arguments: a bit strength that the algorithm does not take, or an
/// empty password under a cipher other than `Null`, always gives the
/// error; a request that comes back always names the pair and the target,
/// with a key that is not empty and holds no line feed.
pub fn prepare_probe(pair: &CredentialPair, info: &KeyInfo) -> (prepared: Result<
    ConnectRequest,
    ProbeOutcome,
>)
    ensures
        !key_size_accepted(info.algo, info.bits) ==> prepared is Err,
        pair.password@.len() == 0 && info.cipher != osshkeys::cipher::Cipher::Null
            ==> prepared is Err,
        prepared matches Err(outcome) ==> outcome@ == OutcomeView::TransportError(
            key_failure_reason(),
        ),
        prepared matches Ok(request) ==> {
            &&& request.host@ == info.ip@
            &&& request.username@ == pair.username@
            &&& request.password@ == pair.password@
            &&& key_size_accepted(info.algo, info.bits)
            &&& request.private_key@.len() > 0
            &&& forall|i: int|
                0 <= i < request.private_key@.len() ==> request.private_key@[i] != '\n'
        },
{
    let request = key_request(pair, info);
    let derived = Arguments::encrypt_pass_to_key(&request);
    connect_request(pair, info, derived)
}

/// Second half of a probe: classifies what the connection attempt
/// returned. A session that opened is a success for the pair and key of
/// the request; a rejection of the credentials is an authentication
/// failure; any other error is a transport error with the error's words.
pub fn conclude_probe(request: ConnectRequest, reply: Result<(), ConnectError>) -> (outcome:
    ProbeOutcome)
    ensures
        outcome@ == outcome_of(
            request.username@,
            request.password@,
            request.private_key@,
            reply_view(reply),
        ),
{
    match reply {
        Ok(_) => ProbeOutcome::Success(
            PrivateKeyData {
                user: request.username,
                password: request.password,
                private_key: request.private_key,
            },
        ),
        Err(error) => {
            if error.kind == ConnectErrorKind::Auth {
                ProbeOutcome::AuthFailed
            } else {
                ProbeOutcome::TransportError(error.reason)
            }
        },
    }
}

} // verus!
