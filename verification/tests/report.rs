use osshkeys::cipher::Cipher;
use osshkeys::KeyType;
use sshkey_probe::report::{
    algorithm_label, assemble_report, cipher_label, compact_timestamp, OutputPlan, DEFAULT_BITS,
    EMPTY_REPORT_BYTES,
};
use sshkey_probe::types::{
    ArgCipher, ArgKeyType, Arguments, KeyOutput, PrivateKeyData,
};

fn arguments() -> Arguments {
    Arguments {
        ip_port: "10.0.0.5:22".to_string(),
        usr_wordlist: "/tmp/lists/users.txt".to_string(),
        pwr_wordlist: "C:\\lists\\passwords.txt".to_string(),
        output: None,
        key_type: None,
        debug: false,
        error: false,
        no_plantext_passwords: false,
        threads: None,
        cipher: None,
        bits: None,
    }
}

#[test]
fn config_defaults() {
    let config = arguments().run_config();
    assert_eq!(config.key_info.ip, "10.0.0.5:22");
    assert_eq!(config.key_info.bits, 3072);
    assert_eq!(DEFAULT_BITS, 3072);
    assert_eq!(config.key_info.algo, KeyType::RSA);
    assert_eq!(config.key_info.cipher, Cipher::Aes256_Ctr);
    assert_eq!(config.threads, 1);
    assert!(!config.debug);
    assert_eq!(config.usr_wordlist, "users.txt");
    assert_eq!(config.pwr_wordlist, "passwords.txt");
}

#[test]
fn config_takes_what_is_given() {
    let mut args = arguments();
    args.bits = Some(521);
    args.threads = Some(8);
    args.key_type = Some(ArgKeyType::Ecdsa);
    args.cipher = Some(ArgCipher::Aes128Cbc);
    args.debug = true;
    let config = args.run_config();
    assert_eq!(config.key_info.bits, 521);
    assert_eq!(config.threads, 8);
    assert_eq!(config.key_info.algo, KeyType::ECDSA);
    assert_eq!(config.key_info.cipher, Cipher::Aes128_Cbc);
    assert!(config.debug);
}

#[test]
fn config_threads_below_two_mean_one() {
    for given in [0u64, 1] {
        let mut args = arguments();
        args.threads = Some(given);
        assert_eq!(args.run_config().threads, 1);
    }
    let mut args = arguments();
    args.threads = Some(2);
    assert_eq!(args.run_config().threads, 2);
    args.threads = Some(u64::MAX);
    assert_eq!(args.run_config().threads as u64, (usize::MAX as u64).min(u64::MAX));
}

#[test]
fn labels_are_the_debug_names() {
    for algo in [KeyType::RSA, KeyType::DSA, KeyType::ECDSA, KeyType::ED25519] {
        assert_eq!(algorithm_label(algo), format!("{:?}", algo));
    }
    let ciphers = [
        Cipher::Aes128_Cbc,
        Cipher::Aes192_Cbc,
        Cipher::Aes256_Cbc,
        Cipher::Aes128_Ctr,
        Cipher::Aes192_Ctr,
        Cipher::Aes256_Ctr,
        Cipher::TDes_Cbc,
        Cipher::Null,
    ];
    for cipher in ciphers {
        assert_eq!(cipher_label(cipher), format!("{:?}", cipher));
    }
    assert_eq!(algorithm_label(KeyType::ED25519), "ED25519");
    assert_eq!(cipher_label(Cipher::Aes256_Ctr), "Aes256_Ctr");
}

#[test]
fn report_without_success_is_empty() {
    let config = arguments().run_config();
    let report = assemble_report(&config, "20240101_00-00-00".to_string(), None);
    let empty = KeyOutput::default();
    assert_eq!(report.ip, empty.ip);
    assert_eq!(report.ip, "");
    assert_eq!(report.bits, 0);
    assert_eq!(report.cipher, "");
    assert_eq!(report.algorithim, "");
    assert_eq!(report.usr_wordlist, "");
    assert_eq!(report.pwr_wordlist, "");
    assert_eq!(report.time, "");
    assert_eq!(report.data.user, "");
    assert_eq!(report.data.password, "");
    assert_eq!(report.data.private_key, "");
}

#[test]
fn report_with_success_holds_options_and_credentials() {
    let config = arguments().run_config();
    let found = PrivateKeyData {
        user: "bob".to_string(),
        password: "pw2".to_string(),
        private_key: "KEY".to_string(),
    };
    let report = assemble_report(&config, "20240101_00-00-00".to_string(), Some(found));
    assert_eq!(report.ip, "10.0.0.5:22");
    assert_eq!(report.bits, 3072);
    assert_eq!(report.cipher, "Aes256_Ctr");
    assert_eq!(report.algorithim, "RSA");
    assert_eq!(report.usr_wordlist, "users.txt");
    assert_eq!(report.pwr_wordlist, "passwords.txt");
    assert_eq!(report.time, "20240101_00-00-00");
    assert_eq!(report.data.user, "bob");
    assert_eq!(report.data.password, "pw2");
    assert_eq!(report.data.private_key, "KEY");
}

#[test]
fn timestamp_of_a_utc_time() {
    assert_eq!(compact_timestamp("2022-08-14 12:34:56.123456789 UTC"), "20220814_12-34-56");
    assert_eq!(compact_timestamp("2022-08-14 12:34:56 UTC"), "20220814_12-34-56");
    assert_eq!(compact_timestamp("1999-12-31 23:59:59.5 UTC"), "19991231_23-59-59");
}

#[test]
fn timestamp_of_short_text_is_not_padded() {
    assert_eq!(compact_timestamp(""), "");
    assert_eq!(compact_timestamp("2022-08-14"), "20220814");
    assert_eq!(compact_timestamp("-.-."), "");
    assert_eq!(compact_timestamp("a:b c"), "a-b_c");
}

#[test]
fn timestamp_agrees_with_replacements() {
    let samples = ["2026-10-28 07:08:09.000000001 UTC", "x-y:z w.v-u:t s.r-q:p o.n", "::::::::::::::::::::"];
    for sample in samples {
        let replaced =
            sample.replace("-", "").replace(":", "-").replace(" ", "_").replace(".", "");
        let expected: String = replaced.chars().take(17).collect();
        assert_eq!(compact_timestamp(sample), expected);
    }
}

#[test]
fn timedate_has_the_stamp_shape() {
    let stamp = Arguments::get_timedate();
    let chars: Vec<char> = stamp.chars().collect();
    assert_eq!(chars.len(), 17);
    for (i, c) in chars.iter().enumerate() {
        match i {
            8 => assert_eq!(*c, '_'),
            11 | 14 => assert_eq!(*c, '-'),
            _ => assert!(c.is_ascii_digit()),
        }
    }
    assert!(stamp.as_str() >= "20240101_00-00-00");
}

fn path(plan: OutputPlan) -> Option<String> {
    match plan {
        OutputPlan::WriteTo(path) => Some(path),
        _ => None,
    }
}

#[test]
fn empty_report_is_not_written() {
    let mut args = arguments();
    args.output = Some("report".to_string());
    assert_eq!(EMPTY_REPORT_BYTES, 196);
    for len in [0usize, 100, 196] {
        let plan = args.plan_output(len, "20240101_00-00-00", Some("/home/u".to_string()), false);
        assert!(matches!(plan, OutputPlan::NoOutput));
    }
    let plan = args.plan_output(197, "20240101_00-00-00", Some("/home/u".to_string()), false);
    assert_eq!(path(plan), Some("/home/u/report.json".to_string()));
}

#[test]
fn report_without_output_option_is_not_written() {
    let plan = arguments().plan_output(500, "20240101_00-00-00", Some("/home/u".to_string()), false);
    assert!(matches!(plan, OutputPlan::NotRequested));
    let plan = arguments().plan_output(10, "20240101_00-00-00", None, false);
    assert!(matches!(plan, OutputPlan::NoOutput));
}

#[test]
fn dot_names_the_report_by_time() {
    let mut args = arguments();
    args.output = Some(".".to_string());
    let plan = args.plan_output(500, "20240101_00-00-00", Some("/home/u".to_string()), false);
    assert_eq!(path(plan), Some("20240101_00-00-00_output.json".to_string()));
    let plan = args.plan_output(500, "20240101_00-00-00", None, true);
    assert_eq!(path(plan), Some("20240101_00-00-00_output.json".to_string()));
}

#[test]
fn named_report_goes_to_the_working_directory() {
    let mut args = arguments();
    args.output = Some("found".to_string());
    let plan = args.plan_output(500, "t", Some("/home/u".to_string()), false);
    assert_eq!(path(plan), Some("/home/u/found.json".to_string()));
    let plan = args.plan_output(500, "t", Some("C:\\Users\\u".to_string()), true);
    assert_eq!(path(plan), Some("C:\\Users\\u\\found.json".to_string()));
    let plan = args.plan_output(500, "t", None, false);
    assert_eq!(path(plan), Some("found".to_string()));
    args.output = Some("..".to_string());
    let plan = args.plan_output(500, "t", Some("/w".to_string()), false);
    assert_eq!(path(plan), Some("/w/...json".to_string()));
}
