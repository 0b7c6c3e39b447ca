//! Data carried through a run: options, credential pairs, probe outcomes,
//! control signals and the report.

use vstd::prelude::*;
use osshkeys::cipher::Cipher;
use osshkeys::KeyType;

verus! {

/// Line-ending convention of a word list.
#[derive(Debug, Clone, Copy, PartialEq, Eq, Structural)]
pub enum LineEndings {
    /// A bare line feed.
    LR,
    /// Carriage return followed by line feed.
    CRLF,
}

/// Key algorithm selected on the command line.
#[derive(Debug, Clone, Copy, PartialEq, Eq, Structural)]
pub enum ArgKeyType {
    Rsa,
    Dsa,
    Ecdsa,
    Ed25519,
}

/// Control signal exchanged between workers and the orchestrator.
///
/// `Data` announces that a success payload is ready on the result channel,
/// `Waiting` is the informational idle notice of a worker whose probe failed,
/// `Kill` is the stop broadcast.
#[derive(Debug, Clone, Copy, PartialEq, Eq, Structural)]
pub enum ThreadMessage {
    Data,
    Waiting,
    Kill,
}

/// Cipher selected on the command line for encrypting the derived key.
#[derive(Debug, Clone, Copy, PartialEq, Eq, Structural)]
pub enum ArgCipher {
    Aes128Cbc,
    Aes128Ctr,
    Aes192Cbc,
    Aes192Ctr,
    Aes256Cbc,
    Aes256Ctr,
}

/// The options of a run as given on the command line.
#[derive(Debug)]
pub struct Arguments {
    /// Target, as `<ipaddress>:<port>`.
    pub ip_port: String,
    /// Path of the username list.
    pub usr_wordlist: String,
    /// Path of the password list.
    pub pwr_wordlist: String,
    /// Where to write the report; `.` asks for a name made from the time.
    pub output: Option<String>,
    /// The type of private key to derive.
    pub key_type: Option<ArgKeyType>,
    /// Whether to print debug messages.
    pub debug: bool,
    /// Whether to print error messages.
    pub error: bool,
    /// Reserved: never authenticate with a bare password.
    pub no_plantext_passwords: bool,
    /// The number of worker threads.
    pub threads: Option<u64>,
    /// The cipher that encrypts the derived key.
    pub cipher: Option<ArgCipher>,
    /// The bit strength of the derived key.
    pub bits: Option<usize>,
}

impl Clone for Arguments {
    fn clone(&self) -> (res: Self)
        ensures
            res == *self,
    {
        Arguments {
            ip_port: self.ip_port.clone(),
            usr_wordlist: self.usr_wordlist.clone(),
            pwr_wordlist: self.pwr_wordlist.clone(),
            output: match &self.output {
                Some(name) => Some(name.clone()),
                None => None,
            },
            key_type: self.key_type,
            debug: self.debug,
            error: self.error,
            no_plantext_passwords: self.no_plantext_passwords,
            threads: self.threads,
            cipher: self.cipher,
            bits: self.bits,
        }
    }
}

/// One username/password combination of the credential space.
#[derive(Debug)]
pub struct CredentialPair {
    pub username: String,
    pub password: String,
}

/// Mathematical value of a [`CredentialPair`].
pub ghost struct PairView {
    pub username: Seq<char>,
    pub password: Seq<char>,
}

impl View for CredentialPair {
    type V = PairView;

    open spec fn view(&self) -> PairView {
        PairView { username: self.username@, password: self.password@ }
    }
}

impl Clone for CredentialPair {
    fn clone(&self) -> (res: Self)
        ensures
            res == *self,
    {
        CredentialPair { username: self.username.clone(), password: self.password.clone() }
    }
}

/// The credentials that authenticated, with the key derived from the password.
#[derive(Debug)]
pub struct PrivateKeyData {
    pub user: String,
    pub password: String,
    pub private_key: String,
}

/// Mathematical value of a [`PrivateKeyData`].
pub ghost struct KeyDataView {
    pub user: Seq<char>,
    pub password: Seq<char>,
    pub private_key: Seq<char>,
}

impl KeyDataView {
    /// The payload of a run in which nothing authenticated.
    pub open spec fn empty() -> KeyDataView {
        KeyDataView { user: Seq::empty(), password: Seq::empty(), private_key: Seq::empty() }
    }
}

impl View for PrivateKeyData {
    type V = KeyDataView;

    open spec fn view(&self) -> KeyDataView {
        KeyDataView {
            user: self.user@,
            password: self.password@,
            private_key: self.private_key@,
        }
    }
}

impl Clone for PrivateKeyData {
    fn clone(&self) -> (res: Self)
        ensures
            res == *self,
    {
        PrivateKeyData {
            user: self.user.clone(),
            password: self.password.clone(),
            private_key: self.private_key.clone(),
        }
    }
}

impl Default for PrivateKeyData {
    fn default() -> (res: Self)
        ensures
            res@ == KeyDataView::empty(),
    {
        PrivateKeyData { user: String::new(), password: String::new(), private_key: String::new() }
    }
}

/// Outcome of probing one credential pair.
#[derive(Debug)]
pub enum ProbeOutcome {
    /// The server accepted the pair; the payload names it and the derived key.
    Success(PrivateKeyData),
    /// The server rejected the credentials.
    AuthFailed,
    /// The attempt failed before the server could judge the credentials.
    TransportError(String),
}

/// Mathematical value of a [`ProbeOutcome`].
pub ghost enum OutcomeView {
    Success(KeyDataView),
    AuthFailed,
    TransportError(Seq<char>),
}

impl View for ProbeOutcome {
    type V = OutcomeView;

    open spec fn view(&self) -> OutcomeView {
        match self {
            ProbeOutcome::Success(data) => OutcomeView::Success(data@),
            ProbeOutcome::AuthFailed => OutcomeView::AuthFailed,
            ProbeOutcome::TransportError(reason) => OutcomeView::TransportError(reason@),
        }
    }
}

/// What a probe needs to know about the key to derive and the target.
#[derive(Debug)]
pub struct KeyInfo {
    /// Target, as `<ipaddress>:<port>`.
    pub ip: String,
    /// Bit strength of the key.
    pub bits: usize,
    /// Algorithm of the key.
    pub algo: KeyType,
    /// Cipher that encrypts the key under the password.
    pub cipher: Cipher,
}

impl Clone for KeyInfo {
    fn clone(&self) -> (res: Self)
        ensures
            res == *self,
    {
        KeyInfo { ip: self.ip.clone(), bits: self.bits, algo: self.algo, cipher: self.cipher }
    }
}

/// The request for one key: which key to derive, and the passphrase that
/// it is encrypted under.
#[derive(Debug)]
pub struct KeyRequest {
    /// Algorithm of the key.
    pub algorithm: KeyType,
    /// Bit strength of the key.
    pub bits: usize,
    /// Cipher that encrypts the key under the passphrase.
    pub cipher: Cipher,
    /// The passphrase: the password of the pair that the key is for.
    pub passphrase: String,
}

impl Clone for KeyRequest {
    fn clone(&self) -> (res: Self)
        ensures
            res == *self,
    {
        KeyRequest {
            algorithm: self.algorithm,
            bits: self.bits,
            cipher: self.cipher,
            passphrase: self.passphrase.clone(),
        }
    }
}

/// The resolved options of a run; built once, never changed during the run.
#[derive(Debug)]
pub struct RunConfig {
    /// Target and key parameters.
    pub key_info: KeyInfo,
    /// Number of workers, at least one; one selects the inline path.
    pub threads: usize,
    /// Whether to print debug messages.
    pub debug: bool,
    /// File name of the username list, without directories.
    pub usr_wordlist: String,
    /// File name of the password list, without directories.
    pub pwr_wordlist: String,
}

impl Clone for RunConfig {
    fn clone(&self) -> (res: Self)
        ensures
            res == *self,
    {
        RunConfig {
            key_info: self.key_info.clone(),
            threads: self.threads,
            debug: self.debug,
            usr_wordlist: self.usr_wordlist.clone(),
            pwr_wordlist: self.pwr_wordlist.clone(),
        }
    }
}

/// The report of a run. It is empty, as `default()` gives it, unless a pair
/// authenticated.
#[derive(Debug)]
pub struct KeyOutput {
    pub ip: String,
    pub data: PrivateKeyData,
    pub bits: usize,
    pub cipher: String,
    pub algorithim: String,
    pub usr_wordlist: String,
    pub pwr_wordlist: String,
    pub time: String,
}

/// Mathematical value of a [`KeyOutput`].
pub ghost struct ReportView {
    pub ip: Seq<char>,
    pub data: KeyDataView,
    pub bits: nat,
    pub cipher: Seq<char>,
    pub algorithim: Seq<char>,
    pub usr_wordlist: Seq<char>,
    pub pwr_wordlist: Seq<char>,
    pub time: Seq<char>,
}

impl ReportView {
    /// The report of a run in which nothing authenticated.
    pub open spec fn empty() -> ReportView {
        ReportView {
            ip: Seq::empty(),
            data: KeyDataView::empty(),
            bits: 0,
            cipher: Seq::empty(),
            algorithim: Seq::empty(),
            usr_wordlist: Seq::empty(),
            pwr_wordlist: Seq::empty(),
            time: Seq::empty(),
        }
    }
}

impl View for KeyOutput {
    type V = ReportView;

    open spec fn view(&self) -> ReportView {
        ReportView {
            ip: self.ip@,
            data: self.data@,
            bits: self.bits as nat,
            cipher: self.cipher@,
            algorithim: self.algorithim@,
            usr_wordlist: self.usr_wordlist@,
            pwr_wordlist: self.pwr_wordlist@,
            time: self.time@,
        }
    }
}

impl Clone for KeyOutput {
    fn clone(&self) -> (res: Self)
        ensures
            res == *self,
    {
        KeyOutput {
            ip: self.ip.clone(),
            data: self.data.clone(),
            bits: self.bits,
            cipher: self.cipher.clone(),
            algorithim: self.algorithim.clone(),
            usr_wordlist: self.usr_wordlist.clone(),
            pwr_wordlist: self.pwr_wordlist.clone(),
            time: self.time.clone(),
        }
    }
}

impl Default for KeyOutput {
    fn default() -> (res: Self)
        ensures
            res@ == ReportView::empty(),
    {
        KeyOutput {
            ip: String::new(),
            data: PrivateKeyData::default(),
            bits: 0,
            cipher: String::new(),
            algorithim: String::new(),
            usr_wordlist: String::new(),
            pwr_wordlist: String::new(),
            time: String::new(),
        }
    }
}

} // verus!
