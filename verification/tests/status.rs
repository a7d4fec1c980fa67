use chia_vault_recover::status::{
    check_start_phrases, clawback_from_hint_message, clawback_hint_saved_message,
    clawback_verified_message, decimal_string, found_lookup_summary, given_phrase,
    hinted_lookup_summary, lookup_not_saved_message, lookup_saved_message, missing_phrase_message,
    optional_phrase, start_pushed_message, word_count_for, word_count_from_number,
    MnemonicWordCount, StartInputError,
};

#[test]
fn word_counts() {
    assert_eq!(word_count_from_number(12), Some(MnemonicWordCount::Words12));
    assert_eq!(word_count_from_number(24), Some(MnemonicWordCount::Words24));
    assert_eq!(word_count_from_number(18), None);
    assert_eq!(word_count_from_number(0), None);
    assert_eq!(word_count_for(true), MnemonicWordCount::Words12);
    assert_eq!(word_count_for(false), MnemonicWordCount::Words24);
}

#[test]
fn optional_phrase_trims_and_drops_blank() {
    assert_eq!(optional_phrase("  abandon ability  \n"), Some("abandon ability"));
    assert_eq!(optional_phrase(" \t\n"), None);
    assert_eq!(optional_phrase(""), None);
}

#[test]
fn start_needs_both_phrases() {
    assert_eq!(check_start_phrases("a b c", "d e f"), Ok(()));
    assert_eq!(
        check_start_phrases("  ", "d e f"),
        Err(StartInputError::MissingRecoveryPhrase)
    );
    assert_eq!(check_start_phrases("", ""), Err(StartInputError::MissingRecoveryPhrase));
    assert_eq!(
        check_start_phrases("a b c", "\n"),
        Err(StartInputError::MissingNewCustodyPhrase)
    );
    assert_eq!(
        StartInputError::MissingRecoveryPhrase.message(),
        "enter the Cloud Wallet recovery phrase to start recovery"
    );
    assert_eq!(
        StartInputError::MissingNewCustodyPhrase.message(),
        "enter a new custody mnemonic to start recovery"
    );
}

#[test]
fn given_phrase_prefers_the_file() {
    assert_eq!(
        given_phrase(Some("inline".into()), Some("  from file \n".into())),
        Some("from file".to_string())
    );
    assert_eq!(given_phrase(Some(" inline ".into()), None), Some(" inline ".to_string()));
    assert_eq!(given_phrase(None, None), None);
    assert_eq!(
        missing_phrase_message("recovery"),
        "recovery phrase required (--*-mnemonic or --*-mnemonic-file)"
    );
}

#[test]
fn decimal_matches_to_string() {
    for n in [0u64, 7, 10, 43_200, 1_234, 99_999, u64::MAX] {
        assert_eq!(decimal_string(n), n.to_string());
    }
}

#[test]
fn clawback_messages() {
    assert_eq!(
        clawback_from_hint_message(43_200),
        "Clawback 43200s comes from the on-chain hint. The recovery phrase was not written to disk. You can Start recovery when ready."
    );
    assert_eq!(
        clawback_hint_saved_message(10),
        "Saved clawback 10s as a hint. Enter the recovery phrase later to confirm it matches the chain. The phrase is never written to disk."
    );
    assert_eq!(
        clawback_verified_message(1_234, true),
        "Clawback 1234s confirmed and saved. Matches the current unspent singleton. The recovery phrase was not written to disk. You can Start recovery when ready."
    );
    assert_eq!(
        clawback_verified_message(0, false),
        "Clawback 0s confirmed and saved. Matches a previous singleton state. The recovery phrase was not written to disk. You can Start recovery when ready."
    );
    assert_eq!(
        start_pushed_message(43_200, "/tmp/post.json"),
        "Start pushed. Wait 43200s then Finish. Config: /tmp/post.json"
    );
}

#[test]
fn lookup_summaries_and_save_lines() {
    let hinted = hinted_lookup_summary("0xabcd");
    assert_eq!(hinted, "Launcher 0xabcd from the on-chain hint.");
    let found = found_lookup_summary([0x0f; 32], "parent spend");
    assert_eq!(found, format!("Launcher 0x{} from parent spend.", "0f".repeat(32)));
    assert_eq!(
        lookup_saved_message(&hinted),
        "Launcher 0xabcd from the on-chain hint. Lookup saved. You can close the app and come back to Start, or continue now."
    );
    assert_eq!(
        lookup_not_saved_message(&found, "disk full"),
        format!("Launcher 0x{} from parent spend. Could not save lookup cache: disk full", "0f".repeat(32))
    );
}
