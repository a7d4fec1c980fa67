//! End-user guidance for the address-first lookup flow.

use vstd::prelude::*;

use crate::text::{hex_encode, hex_lower};

verus! {

/// Launcher known from a successful resolve (not from the address alone).
#[derive(Debug, Clone, PartialEq, Eq)]
pub struct KnownLauncher {
    pub id: [u8; 32],
    pub source: String,
}

/// Why chain lookup could not rebuild the vault layout.
#[derive(Debug, Clone, PartialEq, Eq)]
pub enum LookupGap {
    /// Address unused, never spent, or parent spends did not reveal a launcher.
    LauncherNotFound,
    /// Launcher is known but the singleton has never been spent (eve only).
    SingletonNeverSpent(KnownLauncher),
    /// Singleton spends exist but none used the current custody path.
    NoCustodySpend(KnownLauncher),
}

pub const HEADLINE_LAUNCHER_NOT_FOUND: &'static str =
    "Could not find this vault’s launcher id from the address alone.";

pub const HEADLINE_NEVER_SPENT: &'static str =
    "Found the launcher, but this vault has never been spent with the current setup.";

pub const HEADLINE_NO_CUSTODY_SPEND: &'static str =
    "Found the launcher, but no previous custody spend is on chain.";

pub const DETAIL_LAUNCHER_NOT_FOUND: &'static str = "\
A Cloud Wallet receive address does not contain the launcher id. \
The tool can only recover it from a spent coin at that address \
(or from a parent vault spend).";

pub const DETAIL_NEVER_SPENT: &'static str = "\
An unspent eve singleton has no Cloud Wallet recovery hint yet. \
One send from the vault publishes that hint.";

pub const DETAIL_NO_CUSTODY_SPEND: &'static str = "\
This vault has no Cloud Wallet recovery hint and no custody spend. \
A send that uses the vault’s passkey or Chia Signer App publishes the hint.";

pub const NOTE_MATCHES_CURRENT: &'static str =
    "Reconstructed config matches the current unspent singleton (READY).";

pub const NOTE_MATCHES_PREVIOUS: &'static str =
    "Reconstructed config matches a previous singleton state (vault may be in RECOVERY).";

/// The one-line summary of a gap.
pub open spec fn headline_text(gap: LookupGap) -> Seq<char> {
    match gap {
        LookupGap::LauncherNotFound => HEADLINE_LAUNCHER_NOT_FOUND@,
        LookupGap::SingletonNeverSpent(_) => HEADLINE_NEVER_SPENT@,
        LookupGap::NoCustodySpend(_) => HEADLINE_NO_CUSTODY_SPEND@,
    }
}

/// The explanation of a gap.
pub open spec fn detail_text(gap: LookupGap) -> Seq<char> {
    match gap {
        LookupGap::LauncherNotFound => DETAIL_LAUNCHER_NOT_FOUND@,
        LookupGap::SingletonNeverSpent(_) => DETAIL_NEVER_SPENT@,
        LookupGap::NoCustodySpend(_) => DETAIL_NO_CUSTODY_SPEND@,
    }
}

/// The launcher a gap carries: only gaps that got as far as the launcher have one.
pub open spec fn gap_launcher(gap: LookupGap) -> Option<KnownLauncher> {
    match gap {
        LookupGap::LauncherNotFound => None,
        LookupGap::SingletonNeverSpent(l) => Some(l),
        LookupGap::NoCustodySpend(l) => Some(l),
    }
}

/// The full fallback text: headline, detail, a blank line, then the steps.
pub open spec fn fallback_text(gap: LookupGap) -> Seq<char> {
    headline_text(gap) + "\n"@ + detail_text(gap) + "\n\n"@ + FALLBACK_STEPS@
}

/// The text shown after a layout was rebuilt from a custody spend.
pub open spec fn reconstruct_text(matches_current: bool) -> Seq<char> {
    RECONSTRUCT_SUCCESS@ + " "@ + if matches_current {
        NOTE_MATCHES_CURRENT@
    } else {
        NOTE_MATCHES_PREVIOUS@
    }
}

impl LookupGap {
    pub fn headline(&self) -> (r: &'static str)
        ensures
            r@ == headline_text(*self),
    {
        match self {
            LookupGap::LauncherNotFound => HEADLINE_LAUNCHER_NOT_FOUND,
            LookupGap::SingletonNeverSpent(_) => HEADLINE_NEVER_SPENT,
            LookupGap::NoCustodySpend(_) => HEADLINE_NO_CUSTODY_SPEND,
        }
    }

    pub fn detail(&self) -> (r: &'static str)
        ensures
            r@ == detail_text(*self),
    {
        match self {
            LookupGap::LauncherNotFound => DETAIL_LAUNCHER_NOT_FOUND,
            LookupGap::SingletonNeverSpent(_) => DETAIL_NEVER_SPENT,
            LookupGap::NoCustodySpend(_) => DETAIL_NO_CUSTODY_SPEND,
        }
    }

    /// The launcher, for the gaps that resolved one.
    pub fn known_launcher(&self) -> (r: Option<&KnownLauncher>)
        ensures
            r is Some <==> gap_launcher(*self) is Some,
            r matches Some(l) ==> gap_launcher(*self) == Some(*l),
    {
        match self {
            LookupGap::LauncherNotFound => None,
            LookupGap::SingletonNeverSpent(launcher) => Some(launcher),
            LookupGap::NoCustodySpend(launcher) => Some(launcher),
        }
    }
}

/// What to do when the chain has no recovery hint and no custody spend.
pub fn fallback_guidance(gap: &LookupGap) -> (r: String)
    ensures
        r@ == fallback_text(*gap),
{
    let mut text = String::from_str(gap.headline());
    text.append("\n");
    text.append(gap.detail());
    text.append("\n\n");
    text.append(FALLBACK_STEPS);
    text
}

pub const FALLBACK_STEPS: &'static str = "\
Recovery uses the on-chain hint Cloud Wallet writes onto the vault singleton.

If you can still open this vault at https://vault.chia.net:

Send any amount from the vault back to the same Receive address (or any address \
you control). A self-send is enough. Cloud Wallet spends the vault singleton with \
your passkey or the Chia Signer App, which publishes the recovery hint. Wait \
until that transaction confirms, then look up the same address again.

If you cannot access Cloud Wallet and the hint is not on chain, this tool cannot \
recover the vault from the address alone.";

pub const RECONSTRUCT_SUCCESS: &'static str =
    "Vault layout rebuilt from the previous custody spend and recovery phrase.";

/// Address-only lookup succeeded from the on-chain hint.
pub const LOOKUP_FROM_HINT: &'static str = "\
This vault can be recovered from the on-chain hint. The public layout and \
clawback timelock were read from the Cloud Wallet memo. The lookup is saved \
on disk. The recovery phrase is only needed to Start recovery, and it is never \
written to disk.";

/// Address-only lookup succeeded from a custody spend, without the hint.
pub const LOOKUP_CAN_RECOVER: &'static str = "\
This vault can be recovered from a previous custody spend. The lookup is saved \
on disk, so you can close the app and come back without searching the chain \
again. Optionally enter the clawback window and/or recovery phrase now to \
check the clawback — or skip and do that when you Start recovery. The recovery \
phrase is never written to disk.";

/// Restarted with a saved lookup.
pub const CACHE_LOADED: &'static str = "\
Loaded a saved lookup. Chain search was skipped. You can Start recovery, \
optionally confirm clawback now, or Look up vault again to refresh from the chain. \
The recovery phrase is never stored.";

/// Optional clawback / phrase check after lookup is on disk.
pub const OPTIONAL_CONFIRM_HELP: &'static str = "\
Optional now: enter the clawback window in seconds and/or the recovery phrase \
to check the clawback against the chain. You can skip this and enter them later \
when you Start recovery. The recovery phrase is never saved to disk.";

/// Optional current-vault clawback seconds (Start only).
pub const CLAWBACK_SECS_HELP: &'static str = "\
If the on-chain hint includes this vault’s clawback timelock, that value is used. \
Otherwise enter it in seconds, or leave it empty. The app then tries a saved hint \
(if any), then common Cloud Wallet values (including 43200 / 12 hours) until the \
reconstructed spend matches the chain.";

pub const SELF_SEND_NEEDED: &'static str =
    "Lookup needs a self-send so Cloud Wallet can publish the recovery hint.";

/// The status line shown when lookup stops at a gap: the self-send request,
/// the launcher when the gap resolved one, then the gap's headline.
pub open spec fn fallback_status_text(gap: LookupGap) -> Seq<char> {
    let launcher = match gap_launcher(gap) {
        Some(known) => " launcher 0x"@ + hex_lower(known.id@) + " ("@ + known.source@ + ")."@,
        None => Seq::empty(),
    };
    SELF_SEND_NEEDED@ + launcher + " "@ + headline_text(gap)
}

/// The status line for a lookup that stopped at `gap`.
pub fn fallback_status_message(gap: &LookupGap) -> (r: String)
    ensures
        r@ == fallback_status_text(*gap),
{
    let mut text = String::from_str(SELF_SEND_NEEDED);
    match gap.known_launcher() {
        Some(known) => {
            text.append(" launcher 0x");
            let id = hex_encode(known.id.as_slice());
            text.append(id.as_str());
            text.append(" (");
            text.append(known.source.as_str());
            text.append(").");
        },
        None => {},
    }
    text.append(" ");
    text.append(gap.headline());
    text
}

/// The text shown after the layout was rebuilt from a custody spend and the
/// recovery phrase; the note says whether it matches the current singleton.
pub fn reconstruct_success_guidance(matches_current: bool) -> (r: String)
    ensures
        r@ == reconstruct_text(matches_current),
{
    let note = if matches_current {
        NOTE_MATCHES_CURRENT
    } else {
        NOTE_MATCHES_PREVIOUS
    };
    let mut text = String::from_str(RECONSTRUCT_SUCCESS);
    text.append(" ");
    text.append(note);
    text
}

// ---------------------------------------------------------------------------
// What every fallback text says, and what none says.
/// `p` occurs somewhere in `s`.
pub open spec fn contains_seq(s: Seq<char>, p: Seq<char>) -> bool {
    exists|i: int| 0 <= i <= s.len() - p.len() && #[trigger] s.subrange(i, i + p.len()) == p
}

/// An occurrence in a suffix is an occurrence in the whole.
proof fn lemma_contains_in_suffix(a: Seq<char>, b: Seq<char>, p: Seq<char>, i: int)
    requires
        0 <= i <= b.len() - p.len(),
        b.subrange(i, i + p.len()) == p,
    ensures
        contains_seq(a + b, p),
{
    let s = a + b;
    let j = a.len() + i;
    assert(s.subrange(j, j + p.len()) =~= p);
}

/// Every fallback text, whatever the gap, tells the user to make a self-send
/// from vault.chia.net so that the on-chain hint gets published.
pub proof fn law_fallback_points_to_self_send(gap: LookupGap)
    ensures
        contains_seq(fallback_text(gap), "self-send"@),
        contains_seq(fallback_text(gap), "on-chain hint"@),
        contains_seq(fallback_text(gap), "vault.chia.net"@),
{
    reveal_strlit("self-send");
    reveal_strlit("on-chain hint");
    reveal_strlit("vault.chia.net");
    reveal_strlit("\
Recovery uses the on-chain hint Cloud Wallet writes onto the vault singleton.

If you can still open this vault at https://vault.chia.net:

Send any amount from the vault back to the same Receive address (or any address \
you control). A self-send is enough. Cloud Wallet spends the vault singleton with \
your passkey or the Chia Signer App, which publishes the recovery hint. Wait \
until that transaction confirms, then look up the same address again.

If you cannot access Cloud Wallet and the hint is not on chain, this tool cannot \
recover the vault from the address alone.");
    let steps = FALLBACK_STEPS@;
    let front = headline_text(gap) + "\n"@ + detail_text(gap) + "\n\n"@;
    assert(fallback_text(gap) == front + steps);
    assert(steps.subrange(236, 245) =~= "self-send"@);
    assert(steps.subrange(18, 31) =~= "on-chain hint"@);
    assert(steps.subrange(123, 137) =~= "vault.chia.net"@);
    lemma_contains_in_suffix(front, steps, "self-send"@, 236);
    lemma_contains_in_suffix(front, steps, "on-chain hint"@, 18);
    lemma_contains_in_suffix(front, steps, "vault.chia.net"@, 123);
}

/// No occurrence of `p` starts at a position `i` or later of `s`; a position
/// is ruled out by one of the first six characters of `p`.
pub open spec fn absent_from(s: Seq<char>, p: Seq<char>, i: int) -> bool
    decreases s.len() - i,
{
    if p.len() < 6 || i < 0 || i + p.len() > s.len() {
        true
    } else {
        let differs = s[i] != p[0] || s[i + 1] != p[1] || s[i + 2] != p[2] || s[i + 3] != p[3]
            || s[i + 4] != p[4] || s[i + 5] != p[5];
        differs && absent_from(s, p, i + 1)
    }
}

proof fn lemma_absent_from_later(s: Seq<char>, p: Seq<char>, i: int, j: int)
    requires
        0 <= i <= j,
        absent_from(s, p, i),
    ensures
        absent_from(s, p, j),
    decreases j - i,
{
    if i < j && p.len() >= 6 && i + p.len() <= s.len() {
        lemma_absent_from_later(s, p, i + 1, j);
    }
}

proof fn lemma_absent_not_contained(s: Seq<char>, p: Seq<char>)
    requires
        p.len() >= 6,
        absent_from(s, p, 0),
    ensures
        !contains_seq(s, p),
{
    if contains_seq(s, p) {
        let i = choose|i: int| 0 <= i <= s.len() - p.len() && #[trigger] s.subrange(i, i + p.len()) == p;
        lemma_absent_from_later(s, p, 0, i);
        let w = s.subrange(i, i + p.len());
        assert(w[0] == s[i] && w[1] == s[i + 1] && w[2] == s[i + 2]);
        assert(w[3] == s[i + 3] && w[4] == s[i + 4] && w[5] == s[i + 5]);
    }
}

/// The words that no fallback text may hold: neither has a line break.
pub open spec fn is_forbidden_word(p: Seq<char>) -> bool {
    p == "download"@ || p == "vault-config"@
}

/// An occurrence of a word without line breaks in `a + b`, where `a` ends
/// with a line break, lies wholly in `a` or wholly in `b`.
proof fn lemma_split_after_newline(a: Seq<char>, b: Seq<char>, p: Seq<char>)
    requires
        a.len() > 0,
        a.last() == '\n',
        forall|k: int| 0 <= k < p.len() ==> p[k] != '\n',
        contains_seq(a + b, p),
    ensures
        contains_seq(a, p) || contains_seq(b, p),
{
    let s = a + b;
    let i = choose|i: int| 0 <= i <= s.len() - p.len() && #[trigger] s.subrange(i, i + p.len()) == p;
    if i + p.len() <= a.len() {
        assert(a.subrange(i, i + p.len()) =~= s.subrange(i, i + p.len()));
    } else if i >= a.len() {
        let j = i - a.len();
        assert(b.subrange(j, j + p.len()) =~= s.subrange(i, i + p.len()));
    } else {
        let k = a.len() - 1 - i;
        assert(s.subrange(i, i + p.len())[k] == s[a.len() - 1]);
    }
}

/// The texts whose words the laws rule on, each with a word that it lacks:
/// the fallback steps and each gap's opening lines lack the forbidden words,
/// and each rebuild text lacks the marker of the other state.
pub open spec fn lacks_case(t: Seq<char>, p: Seq<char>) -> bool {
    ||| is_forbidden_word(p) && {
        ||| t == FALLBACK_STEPS@
        ||| t == HEADLINE_LAUNCHER_NOT_FOUND@ + "\n"@ + DETAIL_LAUNCHER_NOT_FOUND@ + "\n\n"@
        ||| t == HEADLINE_NEVER_SPENT@ + "\n"@ + DETAIL_NEVER_SPENT@ + "\n\n"@
        ||| t == HEADLINE_NO_CUSTODY_SPEND@ + "\n"@ + DETAIL_NO_CUSTODY_SPEND@ + "\n\n"@
    }
    ||| t == reconstruct_text(true) && p == "RECOVERY"@
    ||| t == reconstruct_text(false) && p == "(READY)"@
}

/// Each text of `lacks_case` lacks its word: the text is read in stages of
/// 25 positions from the end, each ruling out every occurrence from there on.
#[verifier::spinoff_prover]
#[verifier::rlimit(100)]
proof fn lemma_lacks(t: Seq<char>, p: Seq<char>)
    requires
        lacks_case(t, p),
    ensures
        !contains_seq(t, p),
{
    reveal_strlit("download");
    reveal_strlit("vault-config");
    reveal_strlit("(READY)");
    reveal_strlit("RECOVERY");
    reveal_strlit(" ");
    reveal_strlit("\n");
    reveal_strlit("\n\n");
    reveal_strlit("\
Recovery uses the on-chain hint Cloud Wallet writes onto the vault singleton.

If you can still open this vault at https://vault.chia.net:

Send any amount from the vault back to the same Receive address (or any address \
you control). A self-send is enough. Cloud Wallet spends the vault singleton with \
your passkey or the Chia Signer App, which publishes the recovery hint. Wait \
until that transaction confirms, then look up the same address again.

If you cannot access Cloud Wallet and the hint is not on chain, this tool cannot \
recover the vault from the address alone.");
    reveal_strlit("Could not find this vault’s launcher id from the address alone.");
    reveal_strlit("\
A Cloud Wallet receive address does not contain the launcher id. \
The tool can only recover it from a spent coin at that address \
(or from a parent vault spend).");
    reveal_strlit("Found the launcher, but this vault has never been spent with the current setup.");
    reveal_strlit("\
An unspent eve singleton has no Cloud Wallet recovery hint yet. \
One send from the vault publishes that hint.");
    reveal_strlit("Found the launcher, but no previous custody spend is on chain.");
    reveal_strlit("\
This vault has no Cloud Wallet recovery hint and no custody spend. \
A send that uses the vault’s passkey or Chia Signer App publishes the hint.");
    reveal_strlit("Vault layout rebuilt from the previous custody spend and recovery phrase.");
    reveal_strlit("Reconstructed config matches the current unspent singleton (READY).");
    reveal_strlit(
        "Reconstructed config matches a previous singleton state (vault may be in RECOVERY).",
    );
    reveal_with_fuel(absent_from, 60);
    assert(t.len() < 600);
    assert(absent_from(t, p, 575));
    assert(absent_from(t, p, 550));
    assert(absent_from(t, p, 525));
    assert(absent_from(t, p, 500));
    assert(absent_from(t, p, 475));
    assert(absent_from(t, p, 450));
    assert(absent_from(t, p, 425));
    assert(absent_from(t, p, 400));
    assert(absent_from(t, p, 375));
    assert(absent_from(t, p, 350));
    assert(absent_from(t, p, 325));
    assert(absent_from(t, p, 300));
    assert(absent_from(t, p, 275));
    assert(absent_from(t, p, 250));
    assert(absent_from(t, p, 225));
    assert(absent_from(t, p, 200));
    assert(absent_from(t, p, 175));
    assert(absent_from(t, p, 150));
    assert(absent_from(t, p, 125));
    assert(absent_from(t, p, 100));
    assert(absent_from(t, p, 75));
    assert(absent_from(t, p, 50));
    assert(absent_from(t, p, 25));
    assert(absent_from(t, p, 0));
    lemma_absent_not_contained(t, p);
}

/// The headline and detail of a gap, with the line breaks that follow them.
pub open spec fn fallback_front(gap: LookupGap) -> Seq<char> {
    headline_text(gap) + "\n"@ + detail_text(gap) + "\n\n"@
}

/// No fallback text, whatever the gap, sends the user to a download or to a
/// vault-config export.
pub proof fn law_fallback_is_not_a_download(gap: LookupGap)
    ensures
        !contains_seq(fallback_text(gap), "download"@),
        !contains_seq(fallback_text(gap), "vault-config"@),
{
    lemma_fallback_lacks(gap, "download"@);
    lemma_fallback_lacks(gap, "vault-config"@);
}

proof fn lemma_fallback_lacks(gap: LookupGap, p: Seq<char>)
    requires
        is_forbidden_word(p),
    ensures
        !contains_seq(fallback_text(gap), p),
{
    reveal_strlit("download");
    reveal_strlit("vault-config");
    reveal_strlit("\n\n");
    let front = fallback_front(gap);
    assert(fallback_text(gap) == front + FALLBACK_STEPS@);
    assert(front.last() == '\n');
    lemma_lacks(front, p);
    lemma_lacks(FALLBACK_STEPS@, p);
    if contains_seq(fallback_text(gap), p) {
        lemma_split_after_newline(front, FALLBACK_STEPS@, p);
    }
}

} // verus!

verus! {

/// An occurrence in the middle part is an occurrence in the whole.
proof fn lemma_contains_in_middle(a: Seq<char>, b: Seq<char>, c: Seq<char>, p: Seq<char>)
    requires
        contains_seq(b, p),
    ensures
        contains_seq(a + b + c, p),
{
    let i = choose|i: int| 0 <= i <= b.len() - p.len() && #[trigger] b.subrange(i, i + p.len()) == p;
    let s = a + b + c;
    let j = a.len() + i;
    assert(s.subrange(j, j + p.len()) =~= b.subrange(i, i + p.len()));
}

/// A gap's detail, whatever the gap, never sends the user to a download or to
/// a vault-config export, and the three kinds of gap explain themselves with
/// three different texts.
pub proof fn law_detail_is_not_a_download(gap: LookupGap, other: LookupGap)
    ensures
        !contains_seq(detail_text(gap), "download"@),
        !contains_seq(detail_text(gap), "vault-config"@),
        detail_text(gap) == detail_text(other) <==> (gap is LauncherNotFound
            && other is LauncherNotFound) || (gap is SingletonNeverSpent
            && other is SingletonNeverSpent) || (gap is NoCustodySpend && other is NoCustodySpend),
{
    law_fallback_is_not_a_download(gap);
    let a = headline_text(gap) + "\n"@;
    let c = "\n\n"@ + FALLBACK_STEPS@;
    assert(fallback_text(gap) =~= a + detail_text(gap) + c);
    if contains_seq(detail_text(gap), "download"@) {
        lemma_contains_in_middle(a, detail_text(gap), c, "download"@);
    }
    if contains_seq(detail_text(gap), "vault-config"@) {
        lemma_contains_in_middle(a, detail_text(gap), c, "vault-config"@);
    }
    reveal_strlit("\
A Cloud Wallet receive address does not contain the launcher id. \
The tool can only recover it from a spent coin at that address \
(or from a parent vault spend).");
    reveal_strlit("\
An unspent eve singleton has no Cloud Wallet recovery hint yet. \
One send from the vault publishes that hint.");
    reveal_strlit("\
This vault has no Cloud Wallet recovery hint and no custody spend. \
A send that uses the vault’s passkey or Chia Signer App publishes the hint.");
    assert(DETAIL_LAUNCHER_NOT_FOUND@[1] != DETAIL_NEVER_SPENT@[1]);
    assert(DETAIL_LAUNCHER_NOT_FOUND@[0] != DETAIL_NO_CUSTODY_SPEND@[0]);
    assert(DETAIL_NEVER_SPENT@[0] != DETAIL_NO_CUSTODY_SPEND@[0]);
}

/// The text after a rebuild always opens with the rebuild message, and its
/// note says `(READY)` exactly when the layout matches the current singleton
/// and `RECOVERY` exactly when it matches only a previous one; the two texts
/// differ.
pub proof fn law_reconstruct_note_tells_state(matches_current: bool)
    ensures
        reconstruct_text(matches_current).subrange(0, RECONSTRUCT_SUCCESS@.len() as int)
            == RECONSTRUCT_SUCCESS@,
        contains_seq(reconstruct_text(matches_current), "(READY)"@) <==> matches_current,
        contains_seq(reconstruct_text(matches_current), "RECOVERY"@) <==> !matches_current,
        reconstruct_text(true) != reconstruct_text(false),
{
    lemma_reconstruct_note(true);
    lemma_reconstruct_note(false);
    let t = reconstruct_text(matches_current);
    assert(t.subrange(0, RECONSTRUCT_SUCCESS@.len() as int) =~= RECONSTRUCT_SUCCESS@);
}

/// Which of the two markers each rebuild text holds.
proof fn lemma_reconstruct_note(matches_current: bool)
    ensures
        contains_seq(reconstruct_text(matches_current), "(READY)"@) <==> matches_current,
        contains_seq(reconstruct_text(matches_current), "RECOVERY"@) <==> !matches_current,
{
    reveal_strlit("(READY)");
    reveal_strlit("RECOVERY");
    reveal_strlit(" ");
    reveal_strlit("Vault layout rebuilt from the previous custody spend and recovery phrase.");
    reveal_strlit("Reconstructed config matches the current unspent singleton (READY).");
    reveal_strlit(
        "Reconstructed config matches a previous singleton state (vault may be in RECOVERY).",
    );
    let t = reconstruct_text(matches_current);
    let front = RECONSTRUCT_SUCCESS@ + " "@;
    // The marker that the text must hold, and the one it must not.
    let (held, p) = if matches_current {
        let note = NOTE_MATCHES_CURRENT@;
        assert(t =~= front + note);
        assert(note.subrange(59, 66) =~= "(READY)"@);
        lemma_contains_in_suffix(front, note, "(READY)"@, 59);
        ("(READY)"@, "RECOVERY"@)
    } else {
        let note = NOTE_MATCHES_PREVIOUS@;
        assert(t =~= front + note);
        assert(note.subrange(73, 81) =~= "RECOVERY"@);
        lemma_contains_in_suffix(front, note, "RECOVERY"@, 73);
        ("RECOVERY"@, "(READY)"@)
    };
    assert(contains_seq(t, held));
    lemma_lacks(t, p);
}

} // verus!

verus! {

/// The status line of a stopped lookup asks for a self-send, names the
/// launcher exactly when the gap has resolved one (as `known_launcher` gives
/// it: `launcher 0x`, its lowercase hex and, in brackets, its source), and
/// ends with the gap's headline.
pub proof fn law_fallback_status_names_known_launcher(gap: LookupGap)
    ensures
        fallback_status_text(gap).subrange(0, SELF_SEND_NEEDED@.len() as int) == SELF_SEND_NEEDED@,
        fallback_status_text(gap).subrange(
            fallback_status_text(gap).len() - headline_text(gap).len(),
            fallback_status_text(gap).len() as int,
        ) == headline_text(gap),
        gap_launcher(gap) matches Some(known) ==> contains_seq(
            fallback_status_text(gap),
            " launcher 0x"@ + hex_lower(known.id@) + " ("@ + known.source@ + ")."@,
        ),
        gap_launcher(gap) is None ==> fallback_status_text(gap) == SELF_SEND_NEEDED@ + " "@
            + headline_text(gap),
{
    let t = fallback_status_text(gap);
    let head = SELF_SEND_NEEDED@;
    let tail = " "@ + headline_text(gap);
    match gap_launcher(gap) {
        Some(known) => {
            let named = " launcher 0x"@ + hex_lower(known.id@) + " ("@ + known.source@ + ")."@;
            assert(t =~= head + named + tail);
            assert(t.subrange(head.len() as int, (head.len() + named.len()) as int) =~= named);
        },
        None => {
            assert(t =~= head + tail);
        },
    }
    assert(t.subrange(0, head.len() as int) =~= head);
    assert(t.subrange(t.len() - headline_text(gap).len(), t.len() as int) =~= headline_text(gap));
}

} // verus!
