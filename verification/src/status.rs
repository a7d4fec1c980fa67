//! The decisions and status lines around the recovery wizard: which typed
//! phrases count, the word count of a generated phrase, and the messages that
//! report a clawback check or a saved lookup.

use vstd::prelude::*;

use crate::text::{hex_decode, hex_encode, hex_lower, law_hex_lower_spells_the_bytes, trim, trim_seq};

verus! {

/// The length of a generated BIP39 phrase.
#[derive(Clone, Copy, Debug, PartialEq, Eq, Structural)]
pub enum MnemonicWordCount {
    Words12,
    Words24,
}

/// The word count asked for by number: only 12 and 24 exist.
pub fn word_count_from_number(words: u8) -> (r: Option<MnemonicWordCount>)
    ensures
        words == 12 ==> r == Some(MnemonicWordCount::Words12),
        words == 24 ==> r == Some(MnemonicWordCount::Words24),
        words != 12 && words != 24 ==> r is None,
{
    match words {
        12 => Some(MnemonicWordCount::Words12),
        24 => Some(MnemonicWordCount::Words24),
        _ => None,
    }
}

/// The word count of a generated recovery phrase: 24 unless 12 words were asked for.
pub fn word_count_for(generate_12_words: bool) -> (r: MnemonicWordCount)
    ensures
        r == (if generate_12_words {
            MnemonicWordCount::Words12
        } else {
            MnemonicWordCount::Words24
        }),
{
    if generate_12_words {
        MnemonicWordCount::Words12
    } else {
        MnemonicWordCount::Words24
    }
}

/// A typed phrase without surrounding white space, or nothing when only white
/// space was typed.
pub fn optional_phrase<'a>(typed: &'a str) -> (r: Option<&'a str>)
    ensures
        trim_seq(typed@).len() == 0 ==> r is None,
        r is Some <==> trim_seq(typed@).len() > 0,
        r matches Some(p) ==> p@ == trim_seq(typed@),
{
    let trimmed = trim(typed);
    if trimmed.unicode_len() == 0 {
        None
    } else {
        Some(trimmed)
    }
}

/// Why Start recovery cannot begin.
#[derive(Clone, Copy, Debug, PartialEq, Eq, Structural)]
pub enum StartInputError {
    /// No recovery phrase was typed.
    MissingRecoveryPhrase,
    /// No new custody phrase was typed.
    MissingNewCustodyPhrase,
}

pub const MISSING_RECOVERY_PHRASE: &'static str =
    "enter the Cloud Wallet recovery phrase to start recovery";

pub const MISSING_NEW_CUSTODY_PHRASE: &'static str =
    "enter a new custody mnemonic to start recovery";

impl StartInputError {
    /// The message shown to the user.
    pub fn message(&self) -> (r: &'static str)
        ensures
            r@ == (match *self {
                StartInputError::MissingRecoveryPhrase => MISSING_RECOVERY_PHRASE@,
                StartInputError::MissingNewCustodyPhrase => MISSING_NEW_CUSTODY_PHRASE@,
            }),
    {
        match self {
            StartInputError::MissingRecoveryPhrase => MISSING_RECOVERY_PHRASE,
            StartInputError::MissingNewCustodyPhrase => MISSING_NEW_CUSTODY_PHRASE,
        }
    }
}

/// Start recovery needs the recovery phrase and a new custody phrase; the
/// recovery phrase is checked first.
pub fn check_start_phrases(recovery_phrase: &str, new_custody_phrase: &str) -> (r: Result<
    (),
    StartInputError,
>)
    ensures
        trim_seq(recovery_phrase@).len() == 0 ==> r == Err::<(), StartInputError>(
            StartInputError::MissingRecoveryPhrase,
        ),
        trim_seq(recovery_phrase@).len() > 0 && trim_seq(new_custody_phrase@).len() == 0 ==> r
            == Err::<(), StartInputError>(StartInputError::MissingNewCustodyPhrase),
        r is Ok <==> trim_seq(recovery_phrase@).len() > 0 && trim_seq(new_custody_phrase@).len()
            > 0,
{
    if trim(recovery_phrase).unicode_len() == 0 {
        return Err(StartInputError::MissingRecoveryPhrase);
    }
    if trim(new_custody_phrase).unicode_len() == 0 {
        return Err(StartInputError::MissingNewCustodyPhrase);
    }
    Ok(())
}

/// The phrase given on the command line: the text of the phrase file wins,
/// without surrounding white space; otherwise the inline value as given.
pub fn given_phrase(inline: Option<String>, file_text: Option<String>) -> (r: Option<String>)
    ensures
        file_text matches Some(t) ==> r matches Some(p) && p@ == trim_seq(t@),
        file_text is None ==> r == inline,
{
    match file_text {
        Some(text) => Some(String::from_str(trim(text.as_str()))),
        None => inline,
    }
}

/// The error for a phrase that was required but not given.
pub fn missing_phrase_message(label: &str) -> (r: String)
    ensures
        r@ == label@ + " phrase required (--*-mnemonic or --*-mnemonic-file)"@,
{
    let mut text = String::from_str(label);
    text.append(" phrase required (--*-mnemonic or --*-mnemonic-file)");
    text
}

// ---------------------------------------------------------------------------
// Decimal numbers.
/// The decimal digit for `d` in `0..10`.
pub open spec fn digit_char(d: nat) -> char {
    (48 + d) as char
}

/// The decimal digits of `n`, most significant first, without leading zeros.
pub open spec fn decimal(n: nat) -> Seq<char>
    decreases n,
{
    if n < 10 {
        seq![digit_char(n)]
    } else {
        decimal(n / 10).push(digit_char(n % 10))
    }
}

fn digit_str(d: u64) -> (r: &'static str)
    requires
        d < 10,
    ensures
        r@ == seq![digit_char(d as nat)],
{
    proof {
        reveal_strlit("0");
        reveal_strlit("1");
        reveal_strlit("2");
        reveal_strlit("3");
        reveal_strlit("4");
        reveal_strlit("5");
        reveal_strlit("6");
        reveal_strlit("7");
        reveal_strlit("8");
        reveal_strlit("9");
    }
    let r = match d {
        0 => "0",
        1 => "1",
        2 => "2",
        3 => "3",
        4 => "4",
        5 => "5",
        6 => "6",
        7 => "7",
        8 => "8",
        _ => "9",
    };
    assert(r@ =~= seq![digit_char(d as nat)]);
    r
}

/// Appends the decimal digits of `n` to `text`.
fn append_decimal(text: &mut String, n: u64)
    ensures
        final(text)@ == old(text)@ + decimal(n as nat),
    decreases n,
{
    if n >= 10 {
        append_decimal(text, n / 10);
    }
    text.append(digit_str(n % 10));
}

/// `n` written in decimal, as `u64::to_string` writes it.
pub fn decimal_string(n: u64) -> (r: String)
    ensures
        r@ == decimal(n as nat),
{
    let mut text = String::new();
    append_decimal(&mut text, n);
    assert(text@ =~= decimal(n as nat));
    text
}

// ---------------------------------------------------------------------------
// Clawback check results.
/// The line shown when the clawback came from the on-chain hint.
pub open spec fn clawback_from_hint_text(secs: u64) -> Seq<char> {
    "Clawback "@ + decimal(secs as nat)
        + "s comes from the on-chain hint. The recovery phrase was not written to disk. You can Start recovery when ready."@
}

/// The line shown when a clawback was saved unverified, as a hint.
pub open spec fn clawback_hint_saved_text(secs: u64) -> Seq<char> {
    "Saved clawback "@ + decimal(secs as nat)
        + "s as a hint. Enter the recovery phrase later to confirm it matches the chain. The phrase is never written to disk."@
}

/// The line shown when a clawback matched the chain.
pub open spec fn clawback_verified_text(secs: u64, matches_current: bool) -> Seq<char> {
    "Clawback "@ + decimal(secs as nat) + "s confirmed and saved. "@ + (if matches_current {
        "Matches the current unspent singleton."@
    } else {
        "Matches a previous singleton state."@
    }) + " The recovery phrase was not written to disk. You can Start recovery when ready."@
}

pub fn clawback_from_hint_message(secs: u64) -> (r: String)
    ensures
        r@ == clawback_from_hint_text(secs),
{
    let mut text = String::from_str("Clawback ");
    append_decimal(&mut text, secs);
    text.append(
        "s comes from the on-chain hint. The recovery phrase was not written to disk. You can Start recovery when ready.",
    );
    text
}

pub fn clawback_hint_saved_message(secs: u64) -> (r: String)
    ensures
        r@ == clawback_hint_saved_text(secs),
{
    let mut text = String::from_str("Saved clawback ");
    append_decimal(&mut text, secs);
    text.append(
        "s as a hint. Enter the recovery phrase later to confirm it matches the chain. The phrase is never written to disk.",
    );
    text
}

pub fn clawback_verified_message(secs: u64, matches_current: bool) -> (r: String)
    ensures
        r@ == clawback_verified_text(secs, matches_current),
{
    let mut text = String::from_str("Clawback ");
    append_decimal(&mut text, secs);
    text.append("s confirmed and saved. ");
    if matches_current {
        text.append("Matches the current unspent singleton.");
    } else {
        text.append("Matches a previous singleton state.");
    }
    text.append(" The recovery phrase was not written to disk. You can Start recovery when ready.");
    text
}

/// The line shown once the Start recovery spend was pushed.
pub open spec fn start_pushed_text(clawback_secs: u64, out_config: Seq<char>) -> Seq<char> {
    "Start pushed. Wait "@ + decimal(clawback_secs as nat) + "s then Finish. Config: "@ + out_config
}

pub fn start_pushed_message(clawback_secs: u64, out_config: &str) -> (r: String)
    ensures
        r@ == start_pushed_text(clawback_secs, out_config@),
{
    let mut text = String::from_str("Start pushed. Wait ");
    append_decimal(&mut text, clawback_secs);
    text.append("s then Finish. Config: ");
    text.append(out_config);
    text
}

// ---------------------------------------------------------------------------
// Lookup results.
/// The summary of a lookup rebuilt from the on-chain hint, whose config names
/// the launcher as `launcher_id` text.
pub open spec fn hinted_lookup_text(launcher_id: Seq<char>) -> Seq<char> {
    "Launcher "@ + launcher_id + " from the on-chain hint."@
}

/// The summary of a lookup that found the launcher from a source other than
/// the hint.
pub open spec fn found_lookup_text(launcher_id: Seq<u8>, source: Seq<char>) -> Seq<char> {
    "Launcher 0x"@ + hex_lower(launcher_id) + " from "@ + source + "."@
}

/// The line shown once a lookup was saved.
pub open spec fn lookup_saved_text(summary: Seq<char>) -> Seq<char> {
    summary + " Lookup saved. You can close the app and come back to Start, or continue now."@
}

/// The line shown when a lookup could not be saved.
pub open spec fn lookup_not_saved_text(summary: Seq<char>, error: Seq<char>) -> Seq<char> {
    summary + " Could not save lookup cache: "@ + error
}

/// The summary of a found lookup names the launcher it was given: after
/// `Launcher 0x` come 64 lowercase hex digits that spell the launcher id back,
/// then ` from `, the source and a full stop.
pub proof fn law_found_lookup_names_the_launcher(launcher_id: [u8; 32], source: Seq<char>)
    ensures
        found_lookup_text(launcher_id@, source).subrange(0, 11) == "Launcher 0x"@,
        hex_decode(found_lookup_text(launcher_id@, source).subrange(11, 75)) == launcher_id@,
        found_lookup_text(launcher_id@, source).subrange(
            75,
            found_lookup_text(launcher_id@, source).len() as int,
        ) == " from "@ + source + "."@,
{
    reveal_strlit("Launcher 0x");
    law_hex_lower_spells_the_bytes(launcher_id@);
    let hex = hex_lower(launcher_id@);
    let t = found_lookup_text(launcher_id@, source);
    assert(hex.len() == 64);
    assert(t =~= "Launcher 0x"@ + hex + (" from "@ + source + "."@));
    assert(t.subrange(0, 11) =~= "Launcher 0x"@);
    assert(t.subrange(11, 75) =~= hex);
    assert(t.subrange(75, t.len() as int) =~= " from "@ + source + "."@);
}

pub fn hinted_lookup_summary(launcher_id: &str) -> (r: String)
    ensures
        r@ == hinted_lookup_text(launcher_id@),
{
    let mut text = String::from_str("Launcher ");
    text.append(launcher_id);
    text.append(" from the on-chain hint.");
    text
}

pub fn found_lookup_summary(launcher_id: [u8; 32], source: &str) -> (r: String)
    ensures
        r@ == found_lookup_text(launcher_id@, source@),
{
    let mut text = String::from_str("Launcher 0x");
    let hex = hex_encode(launcher_id.as_slice());
    text.append(hex.as_str());
    text.append(" from ");
    text.append(source);
    text.append(".");
    text
}

pub fn lookup_saved_message(summary: &str) -> (r: String)
    ensures
        r@ == lookup_saved_text(summary@),
{
    let mut text = String::from_str(summary);
    text.append(" Lookup saved. You can close the app and come back to Start, or continue now.");
    text
}

pub fn lookup_not_saved_message(summary: &str, error: &str) -> (r: String)
    ensures
        r@ == lookup_not_saved_text(summary@, error@),
{
    let mut text = String::from_str(summary);
    text.append(" Could not save lookup cache: ");
    text.append(error);
    text
}

} // verus!
