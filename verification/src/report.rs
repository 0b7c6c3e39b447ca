//! Run options resolved from the command line, and the report of a run: its
//! assembly, its time stamp and where it is written.

use vstd::prelude::*;
use osshkeys::cipher::Cipher;
use osshkeys::KeyType;
use crate::types::{
    ArgCipher, ArgKeyType, Arguments, KeyDataView, KeyInfo, KeyOutput, PrivateKeyData, ReportView,
    RunConfig,
};
use crate::wordlist::{chars_of, file_name_of};
use crate::orchestrator::payload_view;

verus! {

/// Bit strength of the key where the command line gives none.
pub const DEFAULT_BITS: usize = 3072;

/// A serialised report of at most this many bytes holds no success and is
/// not written.
pub const EMPTY_REPORT_BYTES: usize = 196;

/// Number of characters of a time stamp.
pub const STAMP_LENGTH: usize = 17;

/// The algorithm of a run: RSA unless the command line says otherwise.
pub open spec fn resolved_algorithm(choice: Option<ArgKeyType>) -> KeyType {
    match choice {
        None => KeyType::RSA,
        Some(ArgKeyType::Rsa) => KeyType::RSA,
        Some(ArgKeyType::Dsa) => KeyType::DSA,
        Some(ArgKeyType::Ecdsa) => KeyType::ECDSA,
        Some(ArgKeyType::Ed25519) => KeyType::ED25519,
    }
}

/// The cipher of a run: AES-256 in counter mode unless the command line
/// says otherwise.
pub open spec fn resolved_cipher(choice: Option<ArgCipher>) -> Cipher {
    match choice {
        None => Cipher::Aes256_Ctr,
        Some(ArgCipher::Aes128Cbc) => Cipher::Aes128_Cbc,
        Some(ArgCipher::Aes128Ctr) => Cipher::Aes128_Ctr,
        Some(ArgCipher::Aes192Cbc) => Cipher::Aes192_Cbc,
        Some(ArgCipher::Aes192Ctr) => Cipher::Aes192_Ctr,
        Some(ArgCipher::Aes256Cbc) => Cipher::Aes256_Cbc,
        Some(ArgCipher::Aes256Ctr) => Cipher::Aes256_Ctr,
    }
}

/// The number of workers of a run: one unless the command line asks for
/// two or more, and no more than the machine can count.
pub open spec fn resolved_threads(choice: Option<u64>) -> nat {
    match choice {
        None => 1,
        Some(count) => if count < 2 {
            1
        } else if count > usize::MAX {
            usize::MAX as nat
        } else {
            count as nat
        },
    }
}

/// The name under which a key algorithm stands in the report.
pub open spec fn algorithm_label_of(algo: KeyType) -> Seq<char> {
    match algo {
        KeyType::RSA => "RSA"@,
        KeyType::DSA => "DSA"@,
        KeyType::ECDSA => "ECDSA"@,
        KeyType::ED25519 => "ED25519"@,
    }
}

/// The name under which a cipher stands in the report.
pub open spec fn cipher_label_of(cipher: Cipher) -> Seq<char> {
    match cipher {
        Cipher::Aes128_Cbc => "Aes128_Cbc"@,
        Cipher::Aes192_Cbc => "Aes192_Cbc"@,
        Cipher::Aes256_Cbc => "Aes256_Cbc"@,
        Cipher::Aes128_Ctr => "Aes128_Ctr"@,
        Cipher::Aes192_Ctr => "Aes192_Ctr"@,
        Cipher::Aes256_Ctr => "Aes256_Ctr"@,
        Cipher::TDes_Cbc => "TDes_Cbc"@,
        _ => "Null"@,
    }
}

/// The report of a run with options `config` that ended at `time` with
/// `found`: empty if nothing authenticated, else the options and the
/// credentials.
pub open spec fn report_of(
    ip: Seq<char>,
    bits: nat,
    algo: KeyType,
    cipher: Cipher,
    usr_wordlist: Seq<char>,
    pwr_wordlist: Seq<char>,
    time: Seq<char>,
    found: Option<KeyDataView>,
) -> ReportView {
    match found {
        None => ReportView::empty(),
        Some(data) => ReportView {
            ip,
            data,
            bits,
            cipher: cipher_label_of(cipher),
            algorithim: algorithm_label_of(algo),
            usr_wordlist,
            pwr_wordlist,
            time,
        },
    }
}

/// What becomes of one character of a time: dashes and dots go, a colon
/// becomes a dash and a space an underscore.
pub open spec fn stamp_char(c: char) -> Option<char> {
    if c == '-' || c == '.' {
        None
    } else if c == ':' {
        Some('-')
    } else if c == ' ' {
        Some('_')
    } else {
        Some(c)
    }
}

/// The characters of a time, each treated as `stamp_char` says.
pub open spec fn normalized(raw: Seq<char>) -> Seq<char>
    decreases raw.len(),
{
    if raw.len() == 0 {
        Seq::empty()
    } else {
        match stamp_char(raw.last()) {
            Some(c) => normalized(raw.drop_last()).push(c),
            None => normalized(raw.drop_last()),
        }
    }
}

/// The time stamp of a time written as `YYYY-MM-DD HH:MM:SS...`: its
/// normalised characters, cut after the seventeenth.
pub open spec fn compact_stamp(raw: Seq<char>) -> Seq<char> {
    if normalized(raw).len() <= STAMP_LENGTH {
        normalized(raw)
    } else {
        normalized(raw).take(STAMP_LENGTH as int)
    }
}

/// Whether `c` is a decimal digit.
pub open spec fn is_digit(c: char) -> bool {
    '0' <= c && c <= '9'
}

/// Whether `s` holds digits from `from` up to `to`.
pub open spec fn all_digits(s: Seq<char>, from: int, to: int) -> bool {
    forall|k: int| from <= k < to ==> is_digit(#[trigger] s[k])
}

/// Whether `s` holds `-MM-DD HH:MM:SS` at `at`: month, day, hour, minute
/// and second in two digits each.
pub open spec fn date_time_at(s: Seq<char>, at: int) -> bool {
    &&& 0 <= at && at + 15 <= s.len()
    &&& s[at] == '-' && is_digit(s[at + 1]) && is_digit(s[at + 2])
    &&& s[at + 3] == '-' && is_digit(s[at + 4]) && is_digit(s[at + 5])
    &&& s[at + 6] == ' ' && is_digit(s[at + 7]) && is_digit(s[at + 8])
    &&& s[at + 9] == ':' && is_digit(s[at + 10]) && is_digit(s[at + 11])
    &&& s[at + 12] == ':' && is_digit(s[at + 13]) && is_digit(s[at + 14])
}

/// Whether `s` begins as the clock writes a time: `YYYY-MM-DD HH:MM:SS`
/// for a year of four digits, and a plus sign before the year if it has
/// more.
pub open spec fn clock_text(s: Seq<char>) -> bool {
    ||| all_digits(s, 0, 4) && date_time_at(s, 4)
    ||| s.len() > 0 && s[0] == '+' && exists|n: int|
        n >= 5 && all_digits(s, 1, 1 + n) && #[trigger] date_time_at(s, 1 + n)
}

/// Whether `s` is a time stamp `YYYYMMDD_HH-MM-SS`: seventeen characters,
/// digits but for the underscore and the two dashes.
pub open spec fn is_stamp(s: Seq<char>) -> bool {
    &&& s.len() == STAMP_LENGTH
    &&& all_digits(s, 0, 8)
    &&& s[8] == '_'
    &&& is_digit(s[9]) && is_digit(s[10])
    &&& s[11] == '-'
    &&& is_digit(s[12]) && is_digit(s[13])
    &&& s[14] == '-'
    &&& is_digit(s[15]) && is_digit(s[16])
}

/// Normalising one character more.
proof fn lemma_normalized_step(raw: Seq<char>, i: int)
    requires
        0 <= i < raw.len(),
    ensures
        normalized(raw.take(i + 1)) == match stamp_char(raw[i]) {
            Some(c) => normalized(raw.take(i)).push(c),
            None => normalized(raw.take(i)),
        },
{
    assert(raw.take(i + 1).drop_last() =~= raw.take(i));
    assert(raw.take(i + 1).last() == raw[i]);
}

/// Digits stay as they are.
proof fn lemma_normalized_digits(raw: Seq<char>, from: int, to: int)
    requires
        0 <= from <= to <= raw.len(),
        forall|k: int| from <= k < to ==> stamp_char(#[trigger] raw[k]) == Some(raw[k]),
    ensures
        normalized(raw.take(to)) == normalized(raw.take(from)) + raw.subrange(from, to),
    decreases to - from,
{
    if from == to {
        assert(normalized(raw.take(from)) + raw.subrange(from, to) =~= normalized(raw.take(from)));
    } else {
        lemma_normalized_digits(raw, from, to - 1);
        lemma_normalized_step(raw, to - 1);
        assert(stamp_char(raw[to - 1]) == Some(raw[to - 1]));
        assert((normalized(raw.take(from)) + raw.subrange(from, to - 1)).push(raw[to - 1])
            =~= normalized(raw.take(from)) + raw.subrange(from, to));
    }
}

/// The thirteen characters that `-MM-DD HH:MM:SS` at `at` becomes.
spec fn date_time_stamp(s: Seq<char>, at: int) -> Seq<char> {
    seq![
        s[at + 1],
        s[at + 2],
        s[at + 4],
        s[at + 5],
        '_',
        s[at + 7],
        s[at + 8],
        '-',
        s[at + 10],
        s[at + 11],
        '-',
        s[at + 13],
        s[at + 14],
    ]
}

/// Normalising `-MM-DD HH:MM:SS`.
proof fn lemma_normalized_date_time(raw: Seq<char>, at: int)
    requires
        date_time_at(raw, at),
    ensures
        normalized(raw.take(at + 15)) == normalized(raw.take(at)) + date_time_stamp(raw, at),
{
    lemma_normalized_step(raw, at);
    lemma_normalized_step(raw, at + 1);
    lemma_normalized_step(raw, at + 2);
    lemma_normalized_step(raw, at + 3);
    lemma_normalized_step(raw, at + 4);
    lemma_normalized_step(raw, at + 5);
    lemma_normalized_step(raw, at + 6);
    lemma_normalized_step(raw, at + 7);
    lemma_normalized_step(raw, at + 8);
    lemma_normalized_step(raw, at + 9);
    lemma_normalized_step(raw, at + 10);
    lemma_normalized_step(raw, at + 11);
    lemma_normalized_step(raw, at + 12);
    lemma_normalized_step(raw, at + 13);
    lemma_normalized_step(raw, at + 14);
    assert(normalized(raw.take(at + 15)) =~= normalized(raw.take(at)) + date_time_stamp(raw, at));
}

/// The stamp of a time as the clock writes it has seventeen characters,
/// and is `YYYYMMDD_HH-MM-SS` unless the year has more than four digits
/// and so begins with a plus sign.
pub proof fn lemma_clock_stamp(raw: Seq<char>)
    requires
        clock_text(raw),
    ensures
        compact_stamp(raw).len() == STAMP_LENGTH,
        is_stamp(compact_stamp(raw)) || compact_stamp(raw)[0] == '+',
{
    if all_digits(raw, 0, 4) && date_time_at(raw, 4) {
        assert forall|k: int| 0 <= k < 4 implies stamp_char(#[trigger] raw[k]) == Some(raw[k]) by {
            assert(is_digit(raw[k]));
        }
        lemma_normalized_digits(raw, 0, 4);
        lemma_normalized_date_time(raw, 4);
        assert(raw.take(0) =~= Seq::<char>::empty());
        let head = normalized(raw.take(19));
        assert(head =~= raw.subrange(0, 4) + date_time_stamp(raw, 4));
        lemma_normalized_prefix(raw, 19);
        assert(compact_stamp(raw) =~= head);
        assert(is_stamp(head));
    } else {
        let n = choose|n: int|
            n >= 5 && all_digits(raw, 1, 1 + n) && #[trigger] date_time_at(raw, 1 + n);
        assert forall|k: int| 0 <= k < 1 + n implies stamp_char(#[trigger] raw[k]) == Some(
            raw[k],
        ) by {
            if k > 0 {
                assert(is_digit(raw[k]));
            }
        }
        lemma_normalized_digits(raw, 0, 1 + n);
        lemma_normalized_date_time(raw, 1 + n);
        assert(raw.take(0) =~= Seq::<char>::empty());
        let head = normalized(raw.take(16 + n));
        assert(head =~= raw.subrange(0, 1 + n) + date_time_stamp(raw, 1 + n));
        lemma_normalized_prefix(raw, 16 + n);
        assert(head[0] == '+');
        assert(normalized(raw)[0] == head[0]);
    }
}

/// A normalised time holds no colon, dot or space.
pub proof fn lemma_normalized_chars(raw: Seq<char>)
    ensures
        forall|i: int|
            0 <= i < normalized(raw).len() ==> {
                let c = #[trigger] normalized(raw)[i];
                c != ':' && c != '.' && c != ' '
            },
    decreases raw.len(),
{
    if raw.len() > 0 {
        lemma_normalized_chars(raw.drop_last());
        let before = normalized(raw.drop_last());
        assert forall|i: int| 0 <= i < normalized(raw).len() implies {
            let c = #[trigger] normalized(raw)[i];
            c != ':' && c != '.' && c != ' '
        } by {
            if i < before.len() {
                assert(normalized(raw)[i] == before[i]);
            }
        }
    }
}

/// Where a report goes.
#[derive(Debug)]
pub enum OutputPlan {
    /// The report holds no success: nothing is written.
    NoOutput,
    /// No output file was asked for: nothing is written.
    NotRequested,
    /// The report is written to this path.
    WriteTo(String),
}

/// Mathematical value of an [`OutputPlan`].
pub ghost enum PlanView {
    NoOutput,
    NotRequested,
    WriteTo(Seq<char>),
}

impl View for OutputPlan {
    type V = PlanView;

    open spec fn view(&self) -> PlanView {
        match self {
            OutputPlan::NoOutput => PlanView::NoOutput,
            OutputPlan::NotRequested => PlanView::NotRequested,
            OutputPlan::WriteTo(path) => PlanView::WriteTo(path@),
        }
    }
}

/// The view of an optional string.
pub open spec fn text_view(text: Option<String>) -> Option<Seq<char>> {
    match text {
        Some(s) => Some(s@),
        None => None,
    }
}

/// Where a report of `serialized_len` bytes goes: nowhere if it is empty or
/// no output was asked for; to `<stamp>_output.json` if the output is `.`;
/// else to `<output>.json` in the working directory, joined by the host's
/// path separator, or to `<output>` as given if the working directory is
/// not known.
pub open spec fn plan_of(
    output: Option<Seq<char>>,
    serialized_len: nat,
    stamp: Seq<char>,
    directory: Option<Seq<char>>,
    windows: bool,
) -> PlanView {
    if serialized_len <= EMPTY_REPORT_BYTES {
        PlanView::NoOutput
    } else {
        match output {
            None => PlanView::NotRequested,
            Some(name) => if name == "."@ {
                PlanView::WriteTo(stamp + "_output.json"@)
            } else {
                match directory {
                    None => PlanView::WriteTo(name),
                    Some(dir) => PlanView::WriteTo(
                        dir + (if windows {
                            "\\"@
                        } else {
                            "/"@
                        }) + name + ".json"@,
                    ),
                }
            },
        }
    }
}

/// Calls `chrono::Utc::now` and formats the time with its `Display`. Which
/// time it is depends on the clock; whichever it is, the text begins with
/// the date and the time of day as `clock_text` says.
#[verifier::external_body]
fn utc_now_text() -> (text: String)
    ensures
        clock_text(text@),
{
    format!("{}", chrono::Utc::now())
}

/// The name under which a key algorithm stands in the report.
pub fn algorithm_label(algo: KeyType) -> (label: String)
    ensures
        label@ == algorithm_label_of(algo),
{
    match algo {
        KeyType::RSA => "RSA".to_owned(),
        KeyType::DSA => "DSA".to_owned(),
        KeyType::ECDSA => "ECDSA".to_owned(),
        KeyType::ED25519 => "ED25519".to_owned(),
    }
}

/// The name under which a cipher stands in the report.
pub fn cipher_label(cipher: Cipher) -> (label: String)
    ensures
        label@ == cipher_label_of(cipher),
{
    match cipher {
        Cipher::Aes128_Cbc => "Aes128_Cbc".to_owned(),
        Cipher::Aes192_Cbc => "Aes192_Cbc".to_owned(),
        Cipher::Aes256_Cbc => "Aes256_Cbc".to_owned(),
        Cipher::Aes128_Ctr => "Aes128_Ctr".to_owned(),
        Cipher::Aes192_Ctr => "Aes192_Ctr".to_owned(),
        Cipher::Aes256_Ctr => "Aes256_Ctr".to_owned(),
        Cipher::TDes_Cbc => "TDes_Cbc".to_owned(),
        _ => "Null".to_owned(),
    }
}

/// Assembles the report of a run: empty if nothing authenticated, else the
/// options of the run, the time and the credentials that authenticated.
pub fn assemble_report(config: &RunConfig, time: String, found: Option<PrivateKeyData>) -> (report:
    KeyOutput)
    ensures
        report@ == report_of(
            config.key_info.ip@,
            config.key_info.bits as nat,
            config.key_info.algo,
            config.key_info.cipher,
            config.usr_wordlist@,
            config.pwr_wordlist@,
            time@,
            payload_view(found),
        ),
{
    match found {
        None => KeyOutput::default(),
        Some(data) => KeyOutput {
            ip: config.key_info.ip.clone(),
            data,
            bits: config.key_info.bits,
            cipher: cipher_label(config.key_info.cipher),
            algorithim: algorithm_label(config.key_info.algo),
            usr_wordlist: config.usr_wordlist.clone(),
            pwr_wordlist: config.pwr_wordlist.clone(),
            time,
        },
    }
}

/// The time stamp of a time written as `YYYY-MM-DD HH:MM:SS...`.
pub fn compact_timestamp(raw: &str) -> (stamp: String)
    ensures
        stamp@ == compact_stamp(raw@),
        stamp@.len() <= STAMP_LENGTH,
{
    let chars = chars_of(raw);
    let mut stamp = String::new();
    let mut count: usize = 0;
    let mut i: usize = 0;
    assert(chars@.take(0) =~= Seq::<char>::empty());
    while i < chars.len() && count < STAMP_LENGTH
        invariant
            0 <= i <= chars@.len(),
            count <= STAMP_LENGTH,
            count == stamp@.len(),
            stamp@ == normalized(chars@.take(i as int)),
        decreases chars@.len() - i,
    {
        let c = chars[i];
        proof {
            assert(chars@.take(i + 1).drop_last() =~= chars@.take(i as int));
            assert(chars@.take(i + 1).last() == c);
        }
        if c == '-' || c == '.' {
        } else if c == ':' {
            stamp.push('-');
            count += 1;
        } else if c == ' ' {
            stamp.push('_');
            count += 1;
        } else {
            stamp.push(c);
            count += 1;
        }
        i += 1;
    }
    proof {
        lemma_normalized_prefix(chars@, i as int);
        if i == chars@.len() {
            assert(chars@.take(i as int) =~= chars@);
        } else {
            assert(stamp@ =~= normalized(chars@).take(STAMP_LENGTH as int));
        }
    }
    stamp
}

/// Normalising a prefix gives a prefix of the normalised whole.
proof fn lemma_normalized_prefix(raw: Seq<char>, i: int)
    requires
        0 <= i <= raw.len(),
    ensures
        normalized(raw.take(i)).len() <= normalized(raw).len(),
        normalized(raw.take(i)) == normalized(raw).take(normalized(raw.take(i)).len() as int),
    decreases raw.len() - i,
{
    if i == raw.len() {
        assert(raw.take(i) =~= raw);
        assert(normalized(raw).take(normalized(raw).len() as int) =~= normalized(raw));
    } else {
        lemma_normalized_prefix(raw, i + 1);
        assert(raw.take(i + 1).drop_last() =~= raw.take(i));
        let longer = normalized(raw.take(i + 1));
        let shorter = normalized(raw.take(i));
        assert(shorter =~= longer.take(shorter.len() as int));
        assert(shorter =~= normalized(raw).take(shorter.len() as int));
    }
}

impl Arguments {
    /// The options of the run: what the command line gives, and for what
    /// it leaves out 3072 bits, one thread, AES-256 in counter mode and
    /// RSA. A thread count below two means the inline path. The word
    /// lists go by their file names.
    pub fn run_config(&self) -> (config: RunConfig)
        ensures
            config.key_info.ip@ == self.ip_port@,
            config.key_info.bits == match self.bits {
                Some(bits) => bits,
                None => DEFAULT_BITS,
            },
            config.key_info.algo == resolved_algorithm(self.key_type),
            config.key_info.cipher == resolved_cipher(self.cipher),
            config.threads == resolved_threads(self.threads),
            config.threads >= 1,
            config.debug == self.debug,
            config.usr_wordlist@ == file_name_of(self.usr_wordlist@),
            config.pwr_wordlist@ == file_name_of(self.pwr_wordlist@),
    {
        let bits = match self.bits {
            Some(bits) => bits,
            None => DEFAULT_BITS,
        };
        let threads: usize = match self.threads {
            None => 1,
            Some(count) => if count < 2 {
                1
            } else if count > usize::MAX as u64 {
                usize::MAX
            } else {
                count as usize
            },
        };
        let cipher = match self.cipher {
            Some(choice) => Arguments::get_cipher(choice),
            None => Cipher::Aes256_Ctr,
        };
        let algo = match self.key_type {
            Some(choice) => Arguments::get_key_type(choice),
            None => KeyType::RSA,
        };
        RunConfig {
            key_info: KeyInfo { ip: self.ip_port.clone(), bits, algo, cipher },
            threads,
            debug: self.debug,
            usr_wordlist: Arguments::get_file_name(self.usr_wordlist.clone()),
            pwr_wordlist: Arguments::get_file_name(self.pwr_wordlist.clone()),
        }
    }

    /// The current time in UTC as a time stamp of seventeen characters:
    /// `YYYYMMDD_HH-MM-SS`, digits but for the underscore and the two
    /// dashes, unless the year has more than four digits and the stamp so
    /// begins with a plus sign. Which time it is depends on the clock.
    pub fn get_timedate() -> (stamp: String)
        ensures
            stamp@.len() == STAMP_LENGTH,
            is_stamp(stamp@) || stamp@[0] == '+',
            exists|raw: Seq<char>| clock_text(raw) && stamp@ == compact_stamp(raw),
            forall|i: int|
                0 <= i < stamp@.len() ==> stamp@[i] != ':' && stamp@[i] != '.' && stamp@[i] != ' ',
    {
        let raw = utc_now_text();
        let stamp = compact_timestamp(raw.as_str());
        proof {
            lemma_clock_stamp(raw@);
            lemma_normalized_chars(raw@);
            assert forall|i: int| 0 <= i < stamp@.len() implies stamp@[i] != ':' && stamp@[i]
                != '.' && stamp@[i] != ' ' by {
                assert(stamp@[i] == normalized(raw@)[i]);
            }
        }
        stamp
    }

    /// Decides where the report goes, given the size of its serialised
    /// form, the time stamp, the working directory if it is known, and
    /// whether the host separates path components with a backslash.
    pub fn plan_output(
        &self,
        serialized_len: usize,
        stamp: &str,
        directory: Option<String>,
        windows: bool,
    ) -> (plan: OutputPlan)
        ensures
            plan@ == plan_of(
                text_view(self.output),
                serialized_len as nat,
                stamp@,
                text_view(directory),
                windows,
            ),
    {
        if serialized_len <= EMPTY_REPORT_BYTES {
            return OutputPlan::NoOutput;
        }
        match &self.output {
            None => OutputPlan::NotRequested,
            Some(name) => {
                let dot = ".".to_owned();
                if *name == dot {
                    let mut path = stamp.to_owned();
                    path.append("_output.json");
                    OutputPlan::WriteTo(path)
                } else {
                    match directory {
                        None => OutputPlan::WriteTo(name.clone()),
                        Some(dir) => {
                            let mut path = dir;
                            if windows {
                                path.append("\\");
                            } else {
                                path.append("/");
                            }
                            path.append(name.as_str());
                            path.append(".json");
                            OutputPlan::WriteTo(path)
                        },
                    }
                }
            },
        }
    }
}

} // verus!
