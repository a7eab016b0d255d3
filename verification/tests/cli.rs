use lantern::cli::{
    check_awaited_length, check_private_directory, check_private_file, check_read_length,
    check_sas_answer, find_contact, message_text, parse, parse_u64, passphrase_text,
    validate_display_name, wait_step, CliError, Command, WaitStep, CONTACT_WAIT_MILLISECONDS,
};
use lantern::secret_storage::state::ContactId;

fn args(values: &[&str]) -> Vec<Vec<u8>> {
    values.iter().map(|value| value.as_bytes().to_vec()).collect()
}

#[test]
fn parser_rejects_missing_extra_and_invalid_numeric_arguments() {
    assert!(matches!(parse(args(&["help"])), Ok(Command::Help)));
    assert!(matches!(parse(args(&["send"])), Err(CliError::Usage)));
    assert!(matches!(
        parse(args(&["send", "p", "k", "n", "c", "m", "bad", "2"])),
        Err(CliError::InvalidNumber)
    ));
}

#[test]
fn parser_builds_each_command_with_its_arguments() {
    assert!(matches!(parse(Vec::new()), Err(CliError::Usage)));
    assert!(matches!(parse(args(&["help", "extra"])), Err(CliError::Usage)));
    assert!(matches!(parse(args(&["unknown"])), Err(CliError::Usage)));
    assert!(matches!(parse(vec![vec![0xff]]), Err(CliError::Usage)));
    match parse(args(&["send", "p", "k", "n", "bob", "m", "+300", "4"])) {
        Ok(Command::Send { contact, ttl_seconds, max_hops, node, .. }) => {
            assert_eq!(contact, "bob");
            assert_eq!(ttl_seconds, 300);
            assert_eq!(max_hops, 4);
            assert_eq!(node, b"n".to_vec());
        }
        _ => panic!("send was not parsed"),
    }
    match parse(args(&["listen", "node", "127.0.0.1:0"])) {
        Ok(Command::Listen { address, .. }) => assert_eq!(address, "127.0.0.1:0"),
        _ => panic!("listen was not parsed"),
    }
    assert!(matches!(parse(args(&["connect", "node", "10.0.0.1:9"])), Ok(Command::Connect { .. })));
    assert!(matches!(parse(args(&["receive", "p", "k", "n"])), Ok(Command::Receive { .. })));
    assert!(matches!(parse(args(&["diagnostics", "n"])), Ok(Command::Diagnostics { .. })));
    let mut invite = args(&["contact-invite", "p", "k", "name", "a", "b", "c", "d"]);
    invite[3] = vec![0xc3];
    assert!(matches!(parse(invite), Err(CliError::Usage)));
    let mut path = args(&["node-init", "x"]);
    path[1] = vec![0xff, 0xfe];
    match parse(path) {
        Ok(Command::NodeInit { node }) => assert_eq!(node, vec![0xff, 0xfe]),
        _ => panic!("raw path was not kept"),
    }
}

#[test]
fn decimal_numbers_follow_the_standard_parser() {
    assert_eq!(parse_u64(b"0"), Some(0));
    assert_eq!(parse_u64(b"+7"), Some(7));
    assert_eq!(parse_u64(b"18446744073709551615"), Some(u64::MAX));
    assert_eq!(parse_u64(b"18446744073709551616"), None);
    assert_eq!(parse_u64(b""), None);
    assert_eq!(parse_u64(b"+"), None);
    assert_eq!(parse_u64(b"-1"), None);
    assert_eq!(parse_u64(b" 1"), None);
    for text in ["0", "+42", "99999", "18446744073709551615", "1x", "", "+", "007"] {
        assert_eq!(parse_u64(text.as_bytes()), text.parse::<u64>().ok());
    }
}

#[test]
fn message_text_drops_one_final_line_break_and_rejects_controls() {
    assert_eq!(message_text(b"hello\n".to_vec(), 4096), Ok("hello".to_owned()));
    assert_eq!(message_text(b"hello\r\n".to_vec(), 4096), Ok("hello".to_owned()));
    assert_eq!(message_text(b"hello\n\n".to_vec(), 4096), Err(CliError::InvalidText));
    assert_eq!(message_text(b"\n".to_vec(), 4096), Err(CliError::InvalidText));
    assert_eq!(message_text(b"tab\there".to_vec(), 4096), Err(CliError::InvalidText));
    assert_eq!(message_text(vec![0xff], 4096), Err(CliError::InvalidText));
    assert_eq!(message_text(b"toolong".to_vec(), 3), Err(CliError::InvalidText));
}

#[test]
fn passphrase_files_are_cleaned_and_checked() {
    assert!(passphrase_text(b"a sixteen char pw\n".to_vec()).is_ok());
    assert!(matches!(passphrase_text(b"short\n".to_vec()), Err(CliError::Profile)));
    assert!(matches!(passphrase_text(b"a sixteen\tchar pw".to_vec()), Err(CliError::InvalidText)));
    assert!(matches!(passphrase_text(vec![0xff; 20]), Err(CliError::InvalidText)));
}

#[test]
fn display_names_and_sas_answers_are_checked() {
    assert_eq!(validate_display_name("Bob"), Ok(()));
    assert_eq!(validate_display_name(""), Err(CliError::InvalidText));
    assert_eq!(validate_display_name(&"x".repeat(129)), Err(CliError::InvalidText));
    assert_eq!(validate_display_name("a\u{85}b"), Err(CliError::InvalidText));
    assert_eq!(check_sas_answer(b"MATCH"), Ok(()));
    assert_eq!(check_sas_answer(b"MATCH\r"), Ok(()));
    assert_eq!(check_sas_answer(b"match"), Err(CliError::SasRejected));
    assert_eq!(check_sas_answer(b"MATCH\r\r"), Err(CliError::SasRejected));
    assert_eq!(check_sas_answer(b"MATCHMATCH"), Err(CliError::SasRejected));
}

#[test]
fn contacts_are_found_by_unique_name() {
    let names = vec!["alice".to_owned(), "bob".to_owned(), "bob".to_owned()];
    let ids = vec![
        ContactId::from_bytes([1; 16]),
        ContactId::from_bytes([2; 16]),
        ContactId::from_bytes([3; 16]),
    ];
    assert!(find_contact(&names, &ids, "alice") == Ok(ContactId::from_bytes([1; 16])));
    assert!(matches!(find_contact(&names, &ids, "bob"), Err(CliError::AmbiguousContact)));
    assert!(matches!(find_contact(&names, &ids, "carol"), Err(CliError::UnknownContact)));
}

#[test]
fn private_directories_and_files_need_owner_only_permissions() {
    assert_eq!(check_private_directory(false, true, 0o40700), Ok(()));
    assert_eq!(check_private_directory(true, true, 0o700), Err(CliError::UnsafeFile));
    assert_eq!(check_private_directory(false, false, 0o700), Err(CliError::UnsafeFile));
    assert_eq!(check_private_directory(false, true, 0o755), Err(CliError::UnsafeFile));

    assert_eq!(check_private_file(false, true, 0o100600, 1, 4096, 4096), Ok(()));
    assert_eq!(check_private_file(false, true, 0o600, 1, 4097, 4096), Err(CliError::UnsafeFile));
    assert_eq!(check_private_file(false, true, 0o640, 1, 10, 4096), Err(CliError::UnsafeFile));
    assert_eq!(check_private_file(false, true, 0o600, 2, 10, 4096), Err(CliError::UnsafeFile));
    assert_eq!(check_private_file(true, true, 0o600, 1, 10, 4096), Err(CliError::UnsafeFile));
    assert_eq!(check_private_file(false, false, 0o600, 1, 10, 4096), Err(CliError::UnsafeFile));

    assert_eq!(check_read_length(4096, 4096), Ok(()));
    assert_eq!(check_read_length(4097, 4096), Err(CliError::InvalidText));
}

#[test]
fn waiting_for_a_contact_file_retries_until_it_is_linked_or_time_runs_out() {
    assert_eq!(wait_step(false, false, false, 0, 0, 0, 700, 0), WaitStep::Retry);
    assert_eq!(
        wait_step(false, false, false, 0, 0, 0, 700, CONTACT_WAIT_MILLISECONDS),
        WaitStep::Fail(CliError::Timeout)
    );
    assert_eq!(wait_step(true, false, true, 0o600, 2, 100, 700, 10), WaitStep::Retry);
    assert_eq!(wait_step(true, false, true, 0o600, 1, 100, 700, 10), WaitStep::Read);
    assert_eq!(
        wait_step(true, false, true, 0o600, 1, 100, 700, CONTACT_WAIT_MILLISECONDS + 5),
        WaitStep::Read
    );
    assert_eq!(
        wait_step(true, false, true, 0o644, 1, 100, 700, 10),
        WaitStep::Fail(CliError::UnsafeFile)
    );
    assert_eq!(
        wait_step(true, false, true, 0o600, 1, 701, 700, 10),
        WaitStep::Fail(CliError::UnsafeFile)
    );
    assert_eq!(check_awaited_length(0, 700), Err(CliError::InvalidText));
    assert_eq!(check_awaited_length(700, 700), Ok(()));
    assert_eq!(check_awaited_length(701, 700), Err(CliError::InvalidText));
}

#[test]
fn parsed_commands_keep_each_argument_in_its_field() {
    match parse(args(&["profile-init", "profile.db", "pass.txt"])) {
        Ok(Command::ProfileInit { profile, passphrase }) => {
            assert_eq!(profile, b"profile.db".to_vec());
            assert_eq!(passphrase, b"pass.txt".to_vec());
        }
        _ => panic!("profile-init was not parsed"),
    }
    match parse(args(&["contact-respond", "p", "k", "Alice", "i", "r", "co", "ci"])) {
        Ok(Command::ContactRespond {
            profile,
            passphrase,
            name,
            invitation_in,
            response_out,
            initiator_confirmation_out,
            receiver_confirmation_in,
        }) => {
            assert_eq!(profile, b"p".to_vec());
            assert_eq!(passphrase, b"k".to_vec());
            assert_eq!(name, "Alice");
            assert_eq!(invitation_in, b"i".to_vec());
            assert_eq!(response_out, b"r".to_vec());
            assert_eq!(initiator_confirmation_out, b"co".to_vec());
            assert_eq!(receiver_confirmation_in, b"ci".to_vec());
        }
        _ => panic!("contact-respond was not parsed"),
    }
    match parse(args(&["send", "p", "k", "n", "Bob", "m", "60", "3"])) {
        Ok(Command::Send { profile, passphrase, node, contact, message, ttl_seconds, max_hops }) => {
            assert_eq!(profile, b"p".to_vec());
            assert_eq!(passphrase, b"k".to_vec());
            assert_eq!(node, b"n".to_vec());
            assert_eq!(contact, "Bob");
            assert_eq!(message, b"m".to_vec());
            assert_eq!(ttl_seconds, 60);
            assert_eq!(max_hops, 3);
        }
        _ => panic!("send was not parsed"),
    }
    match parse(args(&["connect", "node", "192.168.1.2:4000"])) {
        Ok(Command::Connect { node, address }) => {
            assert_eq!(node, b"node".to_vec());
            assert_eq!(address, "192.168.1.2:4000");
        }
        _ => panic!("connect was not parsed"),
    }
    assert!(matches!(parse(args(&["help", "extra"])), Err(CliError::Usage)));
}
