//! Key derivation: a fresh private key of the chosen algorithm and bit
//! strength, serialised in the OpenSSH format and encrypted under the
//! candidate password.

use vstd::prelude::*;
use osshkeys::cipher::Cipher;
use osshkeys::error::ErrorKind;
use osshkeys::{KeyPair, KeyType};
use crate::types::{ArgCipher, ArgKeyType, Arguments, KeyRequest};
use crate::wordlist::chars_of;

verus! {

/// The key algorithms of `osshkeys`.
#[verifier::external_type_specification]
pub struct ExKeyType(osshkeys::KeyType);

/// The ciphers of `osshkeys`.
#[verifier::external_type_specification]
pub struct ExCipher(osshkeys::cipher::Cipher);

/// The error kinds of `osshkeys`.
#[verifier::external_type_specification]
pub struct ExErrorKind(osshkeys::error::ErrorKind);

/// A key pair of `osshkeys`; nothing is known of what it holds.
#[verifier::external_type_specification]
#[verifier::external_body]
pub struct ExKeyPair(osshkeys::KeyPair);

/// Why no key could be derived: the kind of error that `osshkeys`
/// reported, as it reported it.
#[derive(Debug, Clone, Copy, PartialEq, Eq)]
pub struct KeyError {
    pub kind: ErrorKind,
}

/// The bit strengths that each algorithm takes; zero asks for its default.
pub open spec fn key_size_accepted(key: KeyType, bits: usize) -> bool {
    match key {
        KeyType::RSA => bits == 0 || 1024 <= bits <= 16384,
        KeyType::DSA => bits == 0 || bits == 1024,
        KeyType::ECDSA => bits == 0 || bits == 256 || bits == 384 || bits == 521,
        KeyType::ED25519 => bits == 0 || bits == 256,
    }
}

/// `text` without its line feeds.
pub open spec fn without_newlines(text: Seq<char>) -> Seq<char> {
    text.filter(|c: char| c != '\n')
}

/// What becomes of the outcome of a key generation: the pair as it is, or
/// the error with its kind.
pub open spec fn generated_of(outcome: Result<KeyPair, ErrorKind>) -> Result<KeyPair, KeyError> {
    match outcome {
        Ok(pair) => Ok(pair),
        Err(kind) => Err(KeyError { kind }),
    }
}

/// What becomes of the outcome of a serialisation: the text without its
/// line feeds, or the error with its kind.
pub open spec fn derived_of(outcome: Result<Seq<char>, ErrorKind>) -> Result<Seq<char>, KeyError> {
    match outcome {
        Ok(text) => Ok(without_newlines(text)),
        Err(kind) => Err(KeyError { kind }),
    }
}

/// The view of the outcome of a serialisation.
pub open spec fn serialized_view(outcome: Result<String, ErrorKind>) -> Result<
    Seq<char>,
    ErrorKind,
> {
    match outcome {
        Ok(text) => Ok(text@),
        Err(kind) => Err(kind),
    }
}

/// The view of a derived key or the error in its place.
pub open spec fn derived_view(derived: Result<String, KeyError>) -> Result<Seq<char>, KeyError> {
    match derived {
        Ok(key) => Ok(key@),
        Err(error) => Err(error),
    }
}

/// Calls `osshkeys::KeyPair::generate` with the algorithm and the bit
/// strength of the request. The outcome depends on the random source; what
/// holds of every outcome is that a bit strength outside the algorithm's
/// limits is refused with `InvalidKeySize`.
#[verifier::external_body]
fn generate_pair(request: &KeyRequest) -> (pair: Result<KeyPair, ErrorKind>)
    ensures
        !key_size_accepted(request.algorithm, request.bits) ==> pair matches Err(ErrorKind::InvalidKeySize),
{
    match KeyPair::generate(request.algorithm, request.bits) {
        Ok(pair) => Ok(pair),
        Err(error) => Err(error.kind()),
    }
}

/// Calls `osshkeys::KeyPair::serialize_openssh` with the passphrase and the
/// cipher of the request. The outcome depends on a random salt; what holds
/// of every outcome is that an empty passphrase under a cipher other than
/// `Null` is refused with `IncorrectPass`, and that a text that comes back
/// begins with the dash of its first line.
#[verifier::external_body]
fn serialize_pair(pair: &KeyPair, request: &KeyRequest) -> (text: Result<String, ErrorKind>)
    ensures
        request.passphrase@.len() == 0 && request.cipher != Cipher::Null ==> text matches Err(ErrorKind::IncorrectPass),
        text matches Ok(armored) ==> armored@.len() > 0 && armored@[0] == '-',
{
    match pair.serialize_openssh(Some(request.passphrase.as_str()), request.cipher) {
        Ok(text) => Ok(text),
        Err(error) => Err(error.kind()),
    }
}

/// Takes the outcome of a key generation: the pair is handed on as it is,
/// an error keeps its kind.
pub fn generated(outcome: Result<KeyPair, ErrorKind>) -> (pair: Result<KeyPair, KeyError>)
    ensures
        pair == generated_of(outcome),
{
    match outcome {
        Ok(pair) => Ok(pair),
        Err(kind) => Err(KeyError { kind }),
    }
}

/// Takes the outcome of a serialisation: the text loses its line feeds,
/// an error keeps its kind.
pub fn derived_key(outcome: Result<String, ErrorKind>) -> (derived: Result<String, KeyError>)
    ensures
        derived_view(derived) == derived_of(serialized_view(outcome)),
{
    match outcome {
        Ok(text) => Ok(strip_newlines(text.as_str())),
        Err(kind) => Err(KeyError { kind }),
    }
}

/// Removing the line feeds leaves no line feed, and leaves the first
/// character in front if it is none.
pub proof fn lemma_without_newlines(text: Seq<char>)
    ensures
        forall|i: int|
            0 <= i < without_newlines(text).len() ==> (#[trigger] without_newlines(text)[i])
                != '\n',
        text.len() > 0 && text[0] != '\n' ==> without_newlines(text).len() > 0
            && without_newlines(text)[0] == text[0],
    decreases text.len(),
{
    let keep = |c: char| c != '\n';
    reveal_with_fuel(Seq::filter, 2);
    if text.len() > 0 {
        lemma_without_newlines(text.drop_last());
        let before = text.drop_last().filter(keep);
        assert forall|i: int| 0 <= i < without_newlines(text).len() implies (
        #[trigger] without_newlines(text)[i]) != '\n' by {
            if i < before.len() {
                assert(without_newlines(text)[i] == before[i]);
            }
        }
        if text.len() > 1 && text[0] != '\n' {
            assert(text.drop_last()[0] == text[0]);
            assert(without_newlines(text)[0] == before[0]);
        }
    }
}

/// `text` with every line feed removed, so that a key fits on one line.
pub fn strip_newlines(text: &str) -> (stripped: String)
    ensures
        stripped@ == without_newlines(text@),
{
    let chars = chars_of(text);
    let ghost keep = |c: char| c != '\n';
    let mut stripped = String::new();
    let mut i: usize = 0;
    proof {
        reveal_with_fuel(Seq::filter, 1);
        assert(chars@.take(0).filter(keep) =~= Seq::<char>::empty());
    }
    while i < chars.len()
        invariant
            0 <= i <= chars@.len(),
            keep == (|c: char| c != '\n'),
            stripped@ == chars@.take(i as int).filter(keep),
        decreases chars@.len() - i,
    {
        proof {
            reveal_with_fuel(Seq::filter, 1);
            assert(chars@.take(i + 1).drop_last() =~= chars@.take(i as int));
            assert(chars@.take(i + 1).last() == chars@[i as int]);
        }
        if chars[i] != '\n' {
            stripped.push(chars[i]);
        }
        i += 1;
    }
    proof {
        assert(chars@.take(i as int) =~= chars@);
    }
    stripped
}

impl Arguments {
    /// The `osshkeys` key type for an algorithm chosen on the command line.
    pub fn get_key_type(key_type: ArgKeyType) -> (out: KeyType)
        ensures
            out == match key_type {
                ArgKeyType::Rsa => KeyType::RSA,
                ArgKeyType::Dsa => KeyType::DSA,
                ArgKeyType::Ecdsa => KeyType::ECDSA,
                ArgKeyType::Ed25519 => KeyType::ED25519,
            },
    {
        match key_type {
            ArgKeyType::Rsa => KeyType::RSA,
            ArgKeyType::Dsa => KeyType::DSA,
            ArgKeyType::Ecdsa => KeyType::ECDSA,
            ArgKeyType::Ed25519 => KeyType::ED25519,
        }
    }

    /// The `osshkeys` cipher for a cipher chosen on the command line.
    pub fn get_cipher(cipher: ArgCipher) -> (out: Cipher)
        ensures
            out == match cipher {
                ArgCipher::Aes128Cbc => Cipher::Aes128_Cbc,
                ArgCipher::Aes128Ctr => Cipher::Aes128_Ctr,
                ArgCipher::Aes192Cbc => Cipher::Aes192_Cbc,
                ArgCipher::Aes192Ctr => Cipher::Aes192_Ctr,
                ArgCipher::Aes256Cbc => Cipher::Aes256_Cbc,
                ArgCipher::Aes256Ctr => Cipher::Aes256_Ctr,
            },
    {
        match cipher {
            ArgCipher::Aes128Cbc => Cipher::Aes128_Cbc,
            ArgCipher::Aes128Ctr => Cipher::Aes128_Ctr,
            ArgCipher::Aes192Cbc => Cipher::Aes192_Cbc,
            ArgCipher::Aes192Ctr => Cipher::Aes192_Ctr,
            ArgCipher::Aes256Cbc => Cipher::Aes256_Cbc,
            ArgCipher::Aes256Ctr => Cipher::Aes256_Ctr,
        }
    }

    /// Derives the key of a request: a fresh private key of the request's
    /// algorithm and bit strength, serialised in the OpenSSH format,
    /// encrypted with the request's cipher under its passphrase, and
    /// without line feeds.
    ///
    /// The key itself is random, and the generation can fail for reasons
    /// of its own. Whatever comes back: a bit strength that the algorithm
    /// does not take gives the error `InvalidKeySize`; an empty
    /// passphrase under a cipher other than `Null` gives an error; an
    /// error has the kind that `osshkeys` reported; and a key that does
    /// come back is not empty, begins with a dash and holds no line feed.
    pub fn encrypt_pass_to_key(request: &KeyRequest) -> (derived: Result<String, KeyError>)
        ensures
            !key_size_accepted(request.algorithm, request.bits) ==> derived == Err::<
                String,
                KeyError,
            >(KeyError { kind: ErrorKind::InvalidKeySize }),
            request.passphrase@.len() == 0 && request.cipher != Cipher::Null ==> derived is Err,
            derived matches Ok(private_key) ==> {
                &&& key_size_accepted(request.algorithm, request.bits)
                &&& request.passphrase@.len() > 0 || request.cipher == Cipher::Null
                &&& private_key@.len() > 0
                &&& private_key@[0] == '-'
                &&& forall|i: int| 0 <= i < private_key@.len() ==> private_key@[i] != '\n'
            },
    {
        match generated(generate_pair(request)) {
            Err(error) => Err(error),
            Ok(pair) => {
                let serialized = serialize_pair(&pair, request);
                proof {
                    if serialized is Ok {
                        lemma_without_newlines(serialized->Ok_0@);
                    }
                }
                derived_key(serialized)
            },
        }
    }
}

} // verus!
