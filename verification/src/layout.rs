//! The decisions behind a recovery hint, over [`MemoLayout`]: the part of a
//! CHIP-0043 memo that they read, held as plain values. `hint` reads it out
//! of a parsed memo.

use vstd::prelude::*;

use chia_sdk_types::puzzles::Timelock;
use chia_sdk_types::Mod;
use clvm_utils::{ToTreeHash, TreeHash};

use crate::config::{VaultConfig, VaultConfigRecovery, VaultConfigSide, VaultMemberKey};
use crate::text::{hex_encode, hex_lower};

verus! {

/// A member of a vault's inner puzzle as a memo reveals it.
#[derive(Clone, Copy, Debug, PartialEq, Eq)]
pub enum MemoMember {
    /// A key member (BLS, secp256k1, secp256r1 or passkey).
    Key(VaultMemberKey),
    /// Another vault, by its launcher id.
    Vault([u8; 32]),
}

/// What one item of a side reads as.
#[derive(Clone, Copy, Debug, PartialEq, Eq)]
pub enum ItemMember {
    /// A member memo that parses as a key or a vault.
    Parsed(MemoMember),
    /// A member memo that does not parse, or parses as a fixed-puzzle or a
    /// custom member, which a vault side cannot use.
    Unparsed,
    /// Not a member memo at all (a nested M-of-N).
    NotAMember,
}

/// The inner puzzle of a side: one member, or an M-of-N of items.
#[derive(Clone, Debug)]
pub enum SideShape {
    Member(ItemMember),
    MofN { required: usize, items: Vec<ItemMember> },
}

/// What a parsed member memo reads as, from the key or launcher id that each
/// kind of member yields: the first kind present, in the order BLS, K1, R1,
/// passkey, singleton; unparsed when none is.
pub open spec fn member_reading(
    bls: Option<[u8; 48]>,
    k1: Option<[u8; 33]>,
    r1: Option<[u8; 33]>,
    passkey: Option<[u8; 33]>,
    singleton: Option<[u8; 32]>,
) -> ItemMember {
    match (bls, k1, r1, passkey, singleton) {
        (Some(k), _, _, _, _) => ItemMember::Parsed(MemoMember::Key(VaultMemberKey::Bls(k))),
        (None, Some(k), _, _, _) => ItemMember::Parsed(MemoMember::Key(VaultMemberKey::K1(k))),
        (None, None, Some(k), _, _) => ItemMember::Parsed(MemoMember::Key(VaultMemberKey::R1(k))),
        (None, None, None, Some(k), _) => ItemMember::Parsed(
            MemoMember::Key(VaultMemberKey::Passkey(k)),
        ),
        (None, None, None, None, Some(id)) => ItemMember::Parsed(MemoMember::Vault(id)),
        (None, None, None, None, None) => ItemMember::Unparsed,
    }
}

/// The reading of a parsed member memo, given the key or launcher id that
/// each kind of member yields for it.
pub fn member_from_parsed(
    bls: Option<[u8; 48]>,
    k1: Option<[u8; 33]>,
    r1: Option<[u8; 33]>,
    passkey: Option<[u8; 33]>,
    singleton: Option<[u8; 32]>,
) -> (r: ItemMember)
    ensures
        r == member_reading(bls, k1, r1, passkey, singleton),
        !(r is NotAMember),
{
    if let Some(key) = bls {
        return ItemMember::Parsed(MemoMember::Key(VaultMemberKey::Bls(key)));
    }
    if let Some(key) = k1 {
        return ItemMember::Parsed(MemoMember::Key(VaultMemberKey::K1(key)));
    }
    if let Some(key) = r1 {
        return ItemMember::Parsed(MemoMember::Key(VaultMemberKey::R1(key)));
    }
    if let Some(key) = passkey {
        return ItemMember::Parsed(MemoMember::Key(VaultMemberKey::Passkey(key)));
    }
    if let Some(id) = singleton {
        return ItemMember::Parsed(MemoMember::Vault(id));
    }
    ItemMember::Unparsed
}

/// One side of the vault's top-level 1-of-2, as the memo describes it.
#[derive(Clone, Debug)]
pub struct SideMemo {
    /// For each restriction of the side, in order: `None` when the
    /// restriction's memo is not a list of wrapper memos; otherwise, for each
    /// wrapper, the member-validator list hash of the force-1-of-2 restriction
    /// its memo describes, or `None` when it does not read as one.
    pub restrictions: Vec<Option<Vec<Option<[u8; 32]>>>>,
    pub shape: SideShape,
}

/// The top of a vault memo.
#[derive(Clone, Debug)]
pub enum MemoLayout {
    /// The inner puzzle is a single member.
    Member,
    /// The inner puzzle is an M-of-N of sides.
    MofN { required: usize, items: Vec<SideMemo> },
}

// ---------------------------------------------------------------------------
// Timelock hashes, computed by the puzzle crates.
/// The curried tree hash of the `Timelock` restriction puzzle for `seconds`.
pub uninterp spec fn timelock_puzzle_hash(seconds: u64) -> Seq<u8>;

/// The tree hash of a CLVM list whose items are subtrees known only by their
/// tree hashes, given in order.
pub uninterp spec fn subtree_list_tree_hash(items: Seq<Seq<u8>>) -> Seq<u8>;

/// The member-validator list hash of a force-1-of-2 restriction whose only
/// member validator is the timelock for `seconds`.
pub open spec fn timelock_list_hash(seconds: u64) -> Seq<u8> {
    subtree_list_tree_hash(seq![timelock_puzzle_hash(seconds)])
}

/// Calls `Timelock::new(seconds).curry_tree_hash()` and returns the hash's bytes.
#[verifier::external_body]
fn timelock_curry_tree_hash(seconds: u64) -> (r: [u8; 32])
    ensures
        r@ == timelock_puzzle_hash(seconds),
{
    Timelock::new(seconds).curry_tree_hash().to_bytes()
}

/// Calls `ToTreeHash::tree_hash` on the list of the given hashes, each a
/// `TreeHash` that stands for the subtree it is the hash of (not an atom of
/// those bytes), and returns the hash's bytes.
#[verifier::external_body]
fn hash_list_tree_hash(items: &Vec<[u8; 32]>) -> (r: [u8; 32])
    ensures
        r@ == subtree_list_tree_hash(items@.map_values(|h: [u8; 32]| h@)),
{
    items.iter().map(|h| TreeHash::new(*h)).collect::<Vec<TreeHash>>().tree_hash().to_bytes()
}

fn timelock_validator_list_hash(seconds: u64) -> (r: [u8; 32])
    ensures
        r@ == timelock_list_hash(seconds),
{
    let h = timelock_curry_tree_hash(seconds);
    let items = vec![h];
    let r = hash_list_tree_hash(&items);
    assert(items@.map_values(|h: [u8; 32]| h@) =~= seq![timelock_puzzle_hash(seconds)]);
    r
}

/// Equality of two 32-byte strings.
pub fn bytes32_equal(a: &[u8; 32], b: &[u8; 32]) -> (r: bool)
    ensures
        r == (a@ == b@),
{
    let mut i: usize = 0;
    while i < 32
        invariant
            i <= 32,
            a@.len() == 32,
            b@.len() == 32,
            forall|k: int| 0 <= k < i ==> a@[k] == b@[k],
        decreases 32 - i,
    {
        if a[i] != b[i] {
            return false;
        }
        i = i + 1;
    }
    assert(a@ =~= b@);
    true
}

// ---------------------------------------------------------------------------
// The clawback timelock.
/// The first of `candidates` whose timelock list hash is `hash`.
pub open spec fn first_matching_timelock(hash: Seq<u8>, candidates: Seq<u64>) -> Option<u64>
    decreases candidates.len(),
{
    if candidates.len() == 0 {
        None
    } else if timelock_list_hash(candidates[0]) == hash {
        Some(candidates[0])
    } else {
        first_matching_timelock(hash, candidates.drop_first())
    }
}

/// The timelock of the first wrapper memo whose list hash some candidate matches.
pub open spec fn wrapper_memos_timelock(memos: Seq<Option<[u8; 32]>>, candidates: Seq<u64>) -> Option<
    u64,
>
    decreases memos.len(),
{
    if memos.len() == 0 {
        None
    } else {
        match memos[0] {
            Some(h) => match first_matching_timelock(h@, candidates) {
                Some(secs) => Some(secs),
                None => wrapper_memos_timelock(memos.drop_first(), candidates),
            },
            None => wrapper_memos_timelock(memos.drop_first(), candidates),
        }
    }
}

/// The timelock of the first restriction of a side that yields one.
pub open spec fn restrictions_timelock(
    restrictions: Seq<Option<Vec<Option<[u8; 32]>>>>,
    candidates: Seq<u64>,
) -> Option<u64>
    decreases restrictions.len(),
{
    if restrictions.len() == 0 {
        None
    } else {
        match restrictions[0] {
            Some(memos) => match wrapper_memos_timelock(memos@, candidates) {
                Some(secs) => Some(secs),
                None => restrictions_timelock(restrictions.drop_first(), candidates),
            },
            None => restrictions_timelock(restrictions.drop_first(), candidates),
        }
    }
}

/// The recovery timelock that a side commits to, among the candidates.
pub open spec fn side_timelock(side: SideMemo, candidates: Seq<u64>) -> Option<u64> {
    restrictions_timelock(side.restrictions@, candidates)
}

/// The first candidate whose timelock list hash is `hash`: only these seconds
/// are tried against the committed hash.
pub fn timelock_for_list_hash(hash: &[u8; 32], timelock_candidates: &[u64]) -> (r: Option<u64>)
    ensures
        r == first_matching_timelock(hash@, timelock_candidates@),
{
    let n = timelock_candidates.len();
    let mut i: usize = 0;
    assert(timelock_candidates@.subrange(0, n as int) =~= timelock_candidates@);
    while i < n
        invariant
            i <= n,
            n == timelock_candidates@.len(),
            first_matching_timelock(hash@, timelock_candidates@) == first_matching_timelock(
                hash@,
                timelock_candidates@.subrange(i as int, n as int),
            ),
        decreases n - i,
    {
        let secs = timelock_candidates[i];
        let candidate = timelock_validator_list_hash(secs);
        let ghost rest = timelock_candidates@.subrange(i as int, n as int);
        assert(rest[0] == secs);
        if bytes32_equal(&candidate, hash) {
            return Some(secs);
        }
        assert(rest.drop_first() =~= timelock_candidates@.subrange(i + 1, n as int));
        i = i + 1;
    }
    None
}

fn timelock_from_wrapper_memos(memos: &Vec<Option<[u8; 32]>>, timelock_candidates: &[u64]) -> (r:
    Option<u64>)
    ensures
        r == wrapper_memos_timelock(memos@, timelock_candidates@),
{
    let n = memos.len();
    let mut i: usize = 0;
    assert(memos@.subrange(0, n as int) =~= memos@);
    while i < n
        invariant
            i <= n,
            n == memos@.len(),
            wrapper_memos_timelock(memos@, timelock_candidates@) == wrapper_memos_timelock(
                memos@.subrange(i as int, n as int),
                timelock_candidates@,
            ),
        decreases n - i,
    {
        let ghost rest = memos@.subrange(i as int, n as int);
        assert(rest[0] == memos@[i as int]);
        assert(rest.drop_first() =~= memos@.subrange(i + 1, n as int));
        if let Some(hash) = &memos[i] {
            if let Some(secs) = timelock_for_list_hash(hash, timelock_candidates) {
                return Some(secs);
            }
        }
        i = i + 1;
    }
    None
}

fn recovery_timelock(side: &SideMemo, timelock_candidates: &[u64]) -> (r: Option<u64>)
    ensures
        r == side_timelock(*side, timelock_candidates@),
{
    let n = side.restrictions.len();
    let mut i: usize = 0;
    assert(side.restrictions@.subrange(0, n as int) =~= side.restrictions@);
    while i < n
        invariant
            i <= n,
            n == side.restrictions@.len(),
            side_timelock(*side, timelock_candidates@) == restrictions_timelock(
                side.restrictions@.subrange(i as int, n as int),
                timelock_candidates@,
            ),
        decreases n - i,
    {
        let ghost rest = side.restrictions@.subrange(i as int, n as int);
        assert(rest[0] == side.restrictions@[i as int]);
        assert(rest.drop_first() =~= side.restrictions@.subrange(i + 1, n as int));
        if let Some(memos) = &side.restrictions[i] {
            if let Some(secs) = timelock_from_wrapper_memos(memos, timelock_candidates) {
                return Some(secs);
            }
        }
        i = i + 1;
    }
    assert(side.restrictions@.subrange(n as int, n as int).len() == 0);
    None
}

// ---------------------------------------------------------------------------
// The members of a side.
/// The keys and vaults of a list of items, in order; nothing when an item is
/// not a parsed member.
pub open spec fn items_members(items: Seq<ItemMember>) -> Option<(Seq<VaultMemberKey>, Seq<[u8; 32]>)>
    decreases items.len(),
{
    if items.len() == 0 {
        Some((Seq::empty(), Seq::empty()))
    } else {
        match items_members(items.drop_last()) {
            None => None,
            Some((keys, vaults)) => match items.last() {
                ItemMember::Parsed(MemoMember::Key(k)) => Some((keys.push(k), vaults)),
                ItemMember::Parsed(MemoMember::Vault(v)) => Some((keys, vaults.push(v))),
                _ => None,
            },
        }
    }
}

/// The threshold, keys and vaults of a side: a single member counts as a
/// 1-of-1; an M-of-N needs `1 <= M`, at least one item, `M` within `u32`, and
/// only parsed members.
pub open spec fn side_members(shape: SideShape) -> Option<(u32, Seq<VaultMemberKey>, Seq<[u8; 32]>)> {
    match shape {
        SideShape::Member(item) => match items_members(seq![item]) {
            Some((keys, vaults)) => Some((1u32, keys, vaults)),
            None => None,
        },
        SideShape::MofN { required, items } => {
            if required == 0 || items@.len() == 0 || required > u32::MAX {
                None
            } else {
                match items_members(items@) {
                    Some((keys, vaults)) => Some((required as u32, keys, vaults)),
                    None => None,
                }
            }
        },
    }
}

fn push_member(
    member: &ItemMember,
    keys: &mut Vec<VaultMemberKey>,
    vaults: &mut Vec<[u8; 32]>,
) -> (r: bool)
    ensures
        r <==> *member is Parsed,
        *member matches ItemMember::Parsed(MemoMember::Key(k)) ==> final(keys)@ == old(keys)@.push(k)
            && final(vaults)@ == old(vaults)@,
        *member matches ItemMember::Parsed(MemoMember::Vault(v)) ==> final(vaults)@ == old(
            vaults,
        )@.push(v) && final(keys)@ == old(keys)@,
        !(*member is Parsed) ==> final(keys)@ == old(keys)@ && final(vaults)@ == old(vaults)@,
{
    match member {
        ItemMember::Parsed(MemoMember::Key(k)) => {
            keys.push(*k);
            true
        },
        ItemMember::Parsed(MemoMember::Vault(v)) => {
            vaults.push(*v);
            true
        },
        _ => false,
    }
}

fn members_of_items(items: &Vec<ItemMember>) -> (r: Option<(Vec<VaultMemberKey>, Vec<[u8; 32]>)>)
    ensures
        r is Some <==> items_members(items@) is Some,
        r matches Some((keys, vaults)) ==> items_members(items@) == Some((keys@, vaults@)),
{
    let mut keys: Vec<VaultMemberKey> = Vec::new();
    let mut vaults: Vec<[u8; 32]> = Vec::new();
    let n = items.len();
    let mut i: usize = 0;
    assert(items@.subrange(0, 0) =~= Seq::<ItemMember>::empty());
    while i < n
        invariant
            i <= n,
            n == items@.len(),
            items_members(items@.subrange(0, i as int)) == Some((keys@, vaults@)),
        decreases n - i,
    {
        let ghost before = items@.subrange(0, i as int);
        let ghost upto = items@.subrange(0, i + 1);
        assert(upto.drop_last() =~= before);
        assert(upto.last() == items@[i as int]);
        if !push_member(&items[i], &mut keys, &mut vaults) {
            proof {
                assert(items_members(upto) is None);
                lemma_items_members_prefix_fails(items@, i as int + 1);
            }
            return None;
        }
        i = i + 1;
    }
    assert(items@.subrange(0, n as int) =~= items@);
    Some((keys, vaults))
}

fn parse_side(shape: &SideShape) -> (r: Option<(u32, Vec<VaultMemberKey>, Vec<[u8; 32]>)>)
    ensures
        r is Some <==> side_members(*shape) is Some,
        r matches Some((m, keys, vaults)) ==> side_members(*shape) == Some((m, keys@, vaults@)),
{
    match shape {
        SideShape::Member(item) => {
            let mut keys: Vec<VaultMemberKey> = Vec::new();
            let mut vaults: Vec<[u8; 32]> = Vec::new();
            let ok = push_member(item, &mut keys, &mut vaults);
            proof {
                let s = seq![*item];
                assert(s.drop_last() =~= Seq::<ItemMember>::empty());
                assert(s.last() == *item);
                assert(items_members(Seq::<ItemMember>::empty()) == Some(
                    (Seq::<VaultMemberKey>::empty(), Seq::<[u8; 32]>::empty()),
                ));
            }
            if !ok {
                return None;
            }
            Some((1, keys, vaults))
        },
        SideShape::MofN { required, items } => {
            if *required == 0 || items.len() == 0 {
                return None;
            }
            let (keys, vaults) = match members_of_items(items) {
                Some(found) => found,
                None => {
                    return None;
                },
            };
            if *required > 0xffff_ffff {
                return None;
            }
            let threshold = *required as u32;
            Some((threshold, keys, vaults))
        },
    }
}

/// Once a prefix of the items fails, the whole list fails.
proof fn lemma_items_members_prefix_fails(items: Seq<ItemMember>, k: int)
    requires
        0 <= k <= items.len(),
        items_members(items.subrange(0, k)) is None,
    ensures
        items_members(items) is None,
    decreases items.len() - k,
{
    if k < items.len() {
        let next = items.subrange(0, k + 1);
        assert(next.drop_last() =~= items.subrange(0, k));
        lemma_items_members_prefix_fails(items, k + 1);
    } else {
        assert(items.subrange(0, k) =~= items);
    }
}

// ---------------------------------------------------------------------------
// The layout.
/// A side reveals at least one member.
pub open spec fn has_members(side: (u32, Seq<VaultMemberKey>, Seq<[u8; 32]>)) -> bool {
    side.1.len() > 0 || side.2.len() > 0
}

/// The public layout that a memo hints, among the given timelock candidates:
/// (custody, recovery, clawback seconds).
///
/// The memo must describe a 1-of-2. Exactly one of the two sides must commit
/// to one of the candidate timelocks; that side is recovery, the other
/// custody. Both sides must parse, and each must reveal at least one member.
pub open spec fn hinted_layout(layout: MemoLayout, candidates: Seq<u64>) -> Option<
    (
        (u32, Seq<VaultMemberKey>, Seq<[u8; 32]>),
        (u32, Seq<VaultMemberKey>, Seq<[u8; 32]>),
        u64,
    ),
> {
    match layout {
        MemoLayout::Member => None,
        MemoLayout::MofN { required, items } => {
            if required != 1 || items@.len() != 2 {
                None
            } else {
                let left = side_timelock(items@[0], candidates);
                let right = side_timelock(items@[1], candidates);
                let picked: Option<(SideMemo, SideMemo, u64)> = match (left, right) {
                    (None, Some(secs)) => Some((items@[0], items@[1], secs)),
                    (Some(secs), None) => Some((items@[1], items@[0], secs)),
                    _ => None,
                };
                match picked {
                    None => None,
                    Some((custody, recovery, secs)) => match (
                        side_members(custody.shape),
                        side_members(recovery.shape),
                    ) {
                        (Some(c), Some(r)) => if has_members(c) && has_members(r) {
                            Some((c, r, secs))
                        } else {
                            None
                        },
                        _ => None,
                    },
                }
            }
        },
    }
}

/// `config` is the vault config for `launcher_id` with the given layout.
pub open spec fn is_config_for(
    config: VaultConfig,
    launcher_id: Seq<u8>,
    layout: (
        (u32, Seq<VaultMemberKey>, Seq<[u8; 32]>),
        (u32, Seq<VaultMemberKey>, Seq<[u8; 32]>),
        u64,
    ),
) -> bool {
    let (custody, recovery, secs) = layout;
    &&& config.launcher_id@ == "0x"@ + hex_lower(launcher_id)
    &&& config.custody.threshold == custody.0
    &&& config.custody.keys@ == custody.1
    &&& config.custody.vaults@ == custody.2
    &&& config.recovery.threshold == recovery.0
    &&& config.recovery.keys@ == recovery.1
    &&& config.recovery.vaults@ == recovery.2
    &&& config.recovery.clawback_timelock == secs
}

/// The vault config that a memo layout hints for `launcher_id`, trying only
/// `timelock_candidates` against the committed timelock hash.
pub fn config_from_memo_layout(
    launcher_id: [u8; 32],
    layout: &MemoLayout,
    timelock_candidates: &[u64],
) -> (r: Option<VaultConfig>)
    ensures
        r is Some <==> hinted_layout(*layout, timelock_candidates@) is Some,
        r matches Some(config) ==> is_config_for(
            config,
            launcher_id@,
            hinted_layout(*layout, timelock_candidates@)->0,
        ),
{
    let items = match layout {
        MemoLayout::MofN { required, items } => {
            if *required != 1 {
                return None;
            }
            items
        },
        MemoLayout::Member => {
            return None;
        },
    };
    if items.len() != 2 {
        return None;
    }
    let left_timelock = recovery_timelock(&items[0], timelock_candidates);
    let right_timelock = recovery_timelock(&items[1], timelock_candidates);
    let (custody, recovery, timelock) = match (left_timelock, right_timelock) {
        (None, Some(secs)) => (&items[0], &items[1], secs),
        (Some(secs), None) => (&items[1], &items[0], secs),
        _ => {
            return None;
        },
    };
    let (custody_threshold, custody_keys, custody_vaults) = match parse_side(&custody.shape) {
        Some(side) => side,
        None => {
            return None;
        },
    };
    let (recovery_threshold, recovery_keys, recovery_vaults) = match parse_side(&recovery.shape) {
        Some(side) => side,
        None => {
            return None;
        },
    };
    if custody_keys.len() == 0 && custody_vaults.len() == 0 {
        return None;
    }
    if recovery_keys.len() == 0 && recovery_vaults.len() == 0 {
        return None;
    }
    let mut launcher_text = String::from_str("0x");
    let hex = hex_encode(launcher_id.as_slice());
    launcher_text.append(hex.as_str());
    Some(
        VaultConfig {
            launcher_id: launcher_text,
            custody: VaultConfigSide {
                threshold: custody_threshold,
                keys: custody_keys,
                vaults: custody_vaults,
            },
            recovery: VaultConfigRecovery {
                threshold: recovery_threshold,
                clawback_timelock: timelock,
                keys: recovery_keys,
                vaults: recovery_vaults,
            },
        },
    )
}

// ---------------------------------------------------------------------------
// Laws.
proof fn lemma_first_matching_is_candidate(hash: Seq<u8>, candidates: Seq<u64>)
    ensures
        first_matching_timelock(hash, candidates) matches Some(secs) ==> candidates.contains(secs)
            && timelock_list_hash(secs) == hash,
    decreases candidates.len(),
{
    if candidates.len() > 0 && timelock_list_hash(candidates[0]) != hash {
        lemma_first_matching_is_candidate(hash, candidates.drop_first());
        if let Some(secs) = first_matching_timelock(hash, candidates.drop_first()) {
            let k = choose|k: int| 0 <= k < candidates.drop_first().len() && candidates.drop_first()[k] == secs;
            assert(candidates[k + 1] == secs);
        }
    } else if candidates.len() > 0 {
        assert(candidates[0] == candidates[0]);
    }
}

proof fn lemma_wrapper_memos_timelock_is_candidate(memos: Seq<Option<[u8; 32]>>, candidates: Seq<u64>)
    ensures
        wrapper_memos_timelock(memos, candidates) matches Some(secs) ==> candidates.contains(secs),
    decreases memos.len(),
{
    if memos.len() > 0 {
        lemma_wrapper_memos_timelock_is_candidate(memos.drop_first(), candidates);
        if let Some(h) = memos[0] {
            lemma_first_matching_is_candidate(h@, candidates);
        }
    }
}

proof fn lemma_restrictions_timelock_is_candidate(
    restrictions: Seq<Option<Vec<Option<[u8; 32]>>>>,
    candidates: Seq<u64>,
)
    ensures
        restrictions_timelock(restrictions, candidates) matches Some(secs) ==> candidates.contains(
            secs,
        ),
    decreases restrictions.len(),
{
    if restrictions.len() > 0 {
        lemma_restrictions_timelock_is_candidate(restrictions.drop_first(), candidates);
        if let Some(memos) = restrictions[0] {
            lemma_wrapper_memos_timelock_is_candidate(memos@, candidates);
        }
    }
}

/// The layout is a 1-of-2 in which exactly one side commits to a candidate
/// timelock, and that timelock is `secs`.
pub open spec fn only_one_side_commits(layout: MemoLayout, candidates: Seq<u64>, secs: u64) -> bool {
    match layout {
        MemoLayout::MofN { required, items } => {
            let l = side_timelock(items@[0], candidates);
            let r = side_timelock(items@[1], candidates);
            &&& required == 1
            &&& items@.len() == 2
            &&& (l is None && r == Some(secs)) || (r is None && l == Some(secs))
        },
        MemoLayout::Member => false,
    }
}

/// The clawback timelock of a hinted layout is always one of the candidates
/// that the caller supplied: no other seconds are ever tried. Custody is the
/// side that commits to none of them, recovery the side that commits to it,
/// and both sides have a threshold of at least one and at least one member.
pub proof fn law_hinted_timelock_is_a_candidate(layout: MemoLayout, candidates: Seq<u64>)
    ensures
        hinted_layout(layout, candidates) matches Some((custody, recovery, secs)) ==> {
            &&& candidates.contains(secs)
            &&& custody.0 >= 1 && has_members(custody)
            &&& recovery.0 >= 1 && has_members(recovery)
        },
        hinted_layout(layout, candidates) matches Some((_, _, secs)) ==> only_one_side_commits(
            layout,
            candidates,
            secs,
        ),
{
    if let MemoLayout::MofN { required, items } = layout {
        if items@.len() == 2 {
            lemma_restrictions_timelock_is_candidate(items@[0].restrictions@, candidates);
            lemma_restrictions_timelock_is_candidate(items@[1].restrictions@, candidates);
        }
    }
}

} // verus!
