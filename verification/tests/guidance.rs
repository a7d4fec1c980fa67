use chia_vault_recover::guidance::{
    fallback_guidance, fallback_status_message, reconstruct_success_guidance, KnownLauncher, LookupGap, CACHE_LOADED,
    CLAWBACK_SECS_HELP, FALLBACK_STEPS, LOOKUP_CAN_RECOVER, LOOKUP_FROM_HINT,
    OPTIONAL_CONFIRM_HELP, RECONSTRUCT_SUCCESS,
};

fn launcher() -> KnownLauncher {
    KnownLauncher {
        id: [0xaa; 32],
        source: "test".into(),
    }
}

#[test]
fn fallback_mentions_self_send_not_a_download() {
    for gap in [
        LookupGap::LauncherNotFound,
        LookupGap::SingletonNeverSpent(launcher()),
        LookupGap::NoCustodySpend(launcher()),
    ] {
        let text = fallback_guidance(&gap);
        assert!(text.contains("self-send"), "{gap:?}");
        assert!(text.contains("on-chain hint"), "{gap:?}");
        assert!(text.contains("vault.chia.net"), "{gap:?}");
        assert!(!text.contains("download"), "{gap:?}");
        assert!(!text.contains("vault-config"), "{gap:?}");
    }
}

#[test]
fn lookup_can_recover_does_not_ask_for_phrase() {
    assert!(LOOKUP_CAN_RECOVER.contains("Start recovery"));
    assert!(LOOKUP_CAN_RECOVER.contains("never written to disk"));
    assert!(!LOOKUP_CAN_RECOVER.contains("look up again"));
    assert!(CLAWBACK_SECS_HELP.contains("43200"));
    assert!(OPTIONAL_CONFIRM_HELP.contains("skip"));
    assert!(CACHE_LOADED.contains("skipped"));
}

#[test]
fn launcher_only_on_gaps_that_resolved_it() {
    assert!(LookupGap::LauncherNotFound.known_launcher().is_none());
    assert_eq!(
        LookupGap::SingletonNeverSpent(launcher())
            .known_launcher()
            .map(|l| l.id),
        Some([0xaa; 32])
    );
}

#[test]
fn no_custody_spend_keeps_its_launcher() {
    let gap = LookupGap::NoCustodySpend(launcher());
    assert_eq!(gap.known_launcher(), Some(&launcher()));
}

#[test]
fn fallback_is_headline_detail_then_steps() {
    let gap = LookupGap::SingletonNeverSpent(launcher());
    let text = fallback_guidance(&gap);
    assert_eq!(
        text,
        format!("{}\n{}\n\n{}", gap.headline(), gap.detail(), FALLBACK_STEPS)
    );
    assert!(text.starts_with(
        "Found the launcher, but this vault has never been spent with the current setup.\n"
    ));
    assert!(text.ends_with("recover the vault from the address alone."));
}

#[test]
fn headlines_and_details_differ_by_gap() {
    let gaps = [
        LookupGap::LauncherNotFound,
        LookupGap::SingletonNeverSpent(launcher()),
        LookupGap::NoCustodySpend(launcher()),
    ];
    assert_eq!(
        gaps[0].headline(),
        "Could not find this vault’s launcher id from the address alone."
    );
    assert!(gaps[1].detail().starts_with("An unspent eve singleton"));
    assert!(gaps[2].detail().contains("passkey or Chia Signer App"));
    assert_ne!(gaps[0].headline(), gaps[1].headline());
    assert_ne!(gaps[1].headline(), gaps[2].headline());
}

#[test]
fn reconstruct_success_notes() {
    assert_eq!(
        reconstruct_success_guidance(true),
        format!(
            "{RECONSTRUCT_SUCCESS} Reconstructed config matches the current unspent singleton (READY)."
        )
    );
    assert_eq!(
        reconstruct_success_guidance(false),
        format!(
            "{RECONSTRUCT_SUCCESS} Reconstructed config matches a previous singleton state (vault may be in RECOVERY)."
        )
    );
}

#[test]
fn lookup_from_hint_mentions_start_recovery() {
    assert!(LOOKUP_FROM_HINT.contains("on-chain hint"));
    assert!(LOOKUP_FROM_HINT.contains("Start recovery"));
    assert!(LOOKUP_FROM_HINT.contains("never written to disk"));
}

#[test]
fn fallback_status_names_the_launcher_when_known() {
    let gap = LookupGap::NoCustodySpend(launcher());
    assert_eq!(
        fallback_status_message(&gap),
        format!(
            "Lookup needs a self-send so Cloud Wallet can publish the recovery hint. launcher 0x{} (test). {}",
            "aa".repeat(32),
            gap.headline()
        )
    );
    assert_eq!(
        fallback_status_message(&LookupGap::LauncherNotFound),
        "Lookup needs a self-send so Cloud Wallet can publish the recovery hint. \
         Could not find this vault’s launcher id from the address alone."
    );
}

#[test]
fn details_never_mention_a_download_and_differ() {
    let gaps = [
        LookupGap::LauncherNotFound,
        LookupGap::SingletonNeverSpent(launcher()),
        LookupGap::NoCustodySpend(launcher()),
    ];
    for gap in &gaps {
        assert!(!gap.detail().contains("download"));
        assert!(!gap.detail().contains("vault-config"));
    }
    assert_ne!(gaps[0].detail(), gaps[1].detail());
    assert_ne!(gaps[0].detail(), gaps[2].detail());
    assert_ne!(gaps[1].detail(), gaps[2].detail());
    let other = KnownLauncher { id: [0x01; 32], source: "other".into() };
    assert_eq!(gaps[1].detail(), LookupGap::SingletonNeverSpent(other).detail());
}

#[test]
fn reconstruct_note_says_ready_or_recovery() {
    for current in [true, false] {
        let text = reconstruct_success_guidance(current);
        assert!(text.starts_with(RECONSTRUCT_SUCCESS));
        assert_eq!(text.contains("(READY)"), current);
        assert_eq!(text.contains("RECOVERY"), !current);
    }
    assert_ne!(reconstruct_success_guidance(true), reconstruct_success_guidance(false));
}
