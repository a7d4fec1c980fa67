use chia_bls::SecretKey;
use chia_protocol::{Bytes32, Coin, CoinSpend};
use chia_sdk_driver::{
    InnerPuzzleMemo, MemberMemo, MemoKind, MipsMemo, MofNMemo, RestrictionMemo, SpendContext,
    WrapperMemo,
};
use chia_sdk_types::puzzles::Timelock;
use chia_sdk_types::Mod;
use chia_secp::{K1PublicKey, K1SecretKey};
use chia_vault_recover::config::{VaultConfig, VaultMemberKey};
use chia_vault_recover::clvm::Programs;
use chia_vault_recover::hint::{
    config_from_mips_memo, first_hinted_config, hinted_config_from_programs, hinted_config_from_spend,
    memo_layout,
};
use chia_vault_recover::layout::{
    bytes32_equal, config_from_memo_layout, member_from_parsed, timelock_for_list_hash, ItemMember, MemoLayout,
    MemoMember, SideMemo, SideShape,
};
use clvm_utils::ToTreeHash;
use clvmr::NodePtr;

fn k1_key() -> K1PublicKey {
    K1SecretKey::from_bytes(&[1u8; 32]).unwrap().public_key()
}

/// The memo Cloud Wallet writes: a 1-of-2 of a K1 custody member and a BLS
/// recovery member behind a force-1-of-2 wrapper that commits to the timelock.
fn cloud_wallet_memo(
    ctx: &mut SpendContext,
    custody: K1PublicKey,
    recovery: chia_bls::PublicKey,
    timelock: u64,
) -> MipsMemo {
    let custody_member = MemberMemo::k1(ctx, custody, true, true).unwrap();
    let custody_inner = InnerPuzzleMemo::new(0, vec![], MemoKind::Member(custody_member));
    let custody_hash = custody_inner.inner_puzzle_hash(false);
    let recovery_member = MemberMemo::bls(ctx, recovery, false, false, true).unwrap();
    let restriction = recovery_wrappers(ctx, custody_hash, timelock);
    let recovery_inner =
        InnerPuzzleMemo::new(0, vec![restriction], MemoKind::Member(recovery_member));
    MipsMemo::new(InnerPuzzleMemo::new(
        0,
        vec![],
        MemoKind::MofN(MofNMemo::new(1, vec![custody_inner, recovery_inner])),
    ))
}

fn recovery_wrappers(
    ctx: &mut SpendContext,
    custody_hash: clvm_utils::TreeHash,
    timelock: u64,
) -> RestrictionMemo {
    let timelock_restriction = RestrictionMemo::timelock(ctx, timelock, false).unwrap();
    let force = WrapperMemo::force_1_of_2_restricted_variable(
        ctx,
        custody_hash.into(),
        0,
        vec![timelock_restriction],
    )
    .unwrap();
    let mut wrappers = vec![force];
    // CREATE_COIN_ANNOUNCEMENT, CREATE_PUZZLE_ANNOUNCEMENT, SEND_MESSAGE, RECEIVE_MESSAGE
    for opcode in [60u16, 62, 66, 67] {
        wrappers.push(WrapperMemo::prevent_condition_opcode(ctx, opcode, true).unwrap());
    }
    wrappers.push(WrapperMemo::prevent_multiple_create_coins());
    RestrictionMemo::enforce_delegated_puzzle_wrappers(ctx, &wrappers).unwrap()
}

/// The memo serialized and read back into a tree of its own.
fn memo_tree(ctx: &mut SpendContext, memo: &MipsMemo) -> Programs {
    let program = ctx.serialize(memo).unwrap();
    Programs::new().read(program.as_ref()).expect("program")
}

fn list_hash(secs: u64) -> [u8; 32] {
    vec![Timelock::new(secs).curry_tree_hash()].tree_hash().to_bytes()
}

#[test]
fn memo_round_trip_matches_vault_puzzle() {
    let mut ctx = SpendContext::new();
    let custody = k1_key();
    let recovery = SecretKey::from_seed(&[7; 32]).public_key();
    let launcher = [0x44; 32];
    let memo = cloud_wallet_memo(&mut ctx, custody, recovery, 43_200);
    let tree = memo_tree(&mut ctx, &memo);
    let memo = tree.root(0).memo().expect("memo");
    let config = config_from_mips_memo(&memo, launcher, &[43_200]).expect("hint");
    assert_eq!(config.recovery.clawback_timelock, 43_200);
    assert_eq!(config.custody.threshold, 1);
    assert_eq!(config.custody.keys, vec![VaultMemberKey::K1(custody.to_bytes())]);
    assert_eq!(config.recovery.keys, vec![VaultMemberKey::Bls(recovery.to_bytes())]);
    assert_eq!(config.launcher_id, format!("0x{}", hex::encode(launcher)));
}

#[test]
fn spend_solution_yields_matching_config() {
    let mut ctx = SpendContext::new();
    let custody = k1_key();
    let recovery = SecretKey::from_seed(&[9; 32]).public_key();
    let launcher = [0x55; 32];
    let memo = cloud_wallet_memo(&mut ctx, custody, recovery, 10);
    let tree = memo_tree(&mut ctx, &memo);
    let config = config_from_mips_memo(&tree.root(0).memo().unwrap(), launcher, &[10]).unwrap();
    let full_puzzle_hash = [0x66; 32];
    let vault_puzzle_hash = |c: &VaultConfig| {
        (c.recovery.keys == config.recovery.keys && c.custody.keys == config.custody.keys)
            .then_some(full_puzzle_hash)
    };
    let solution = ctx.serialize(&vec![memo]).unwrap();
    let puzzle = ctx.serialize(&NodePtr::NIL).unwrap();
    let coin = Coin::new(Bytes32::default(), Bytes32::new(full_puzzle_hash), 1);
    let spend = CoinSpend::new(coin, puzzle, solution);
    let parsed =
        hinted_config_from_spend(&spend, launcher, full_puzzle_hash, &[10], vault_puzzle_hash)
            .expect("hint on spend");
    assert_eq!(parsed.recovery.clawback_timelock, 10);
}

#[test]
fn custom_timelock_matches_only_when_supplied() {
    let mut ctx = SpendContext::new();
    let custody = k1_key();
    let recovery = SecretKey::from_seed(&[3; 32]).public_key();
    let memo = cloud_wallet_memo(&mut ctx, custody, recovery, 1_234);
    let tree = memo_tree(&mut ctx, &memo);
    let memo = tree.root(0).memo().unwrap();
    assert!(config_from_mips_memo(&memo, [0u8; 32], &[43_200]).is_none());
    let config = config_from_mips_memo(&memo, [0u8; 32], &[1_234]).unwrap();
    assert_eq!(config.recovery.clawback_timelock, 1_234);
    assert!(matches!(config.recovery.keys.first(), Some(VaultMemberKey::Bls(_))));
}

#[test]
fn spend_without_matching_puzzle_hash_yields_nothing() {
    let mut ctx = SpendContext::new();
    let memo = cloud_wallet_memo(&mut ctx, k1_key(), SecretKey::from_seed(&[2; 32]).public_key(), 10);
    let solution = ctx.serialize(&vec![memo]).unwrap();
    let puzzle = ctx.serialize(&NodePtr::NIL).unwrap();
    let coin = Coin::new(Bytes32::default(), Bytes32::default(), 1);
    let spend = CoinSpend::new(coin, puzzle, solution);
    let found = hinted_config_from_spend(&spend, [0x55; 32], [0x66; 32], &[10], |_: &VaultConfig| {
        Some([0x67; 32])
    });
    assert!(found.is_none());
    let found = hinted_config_from_spend(&spend, [0x55; 32], [0x66; 32], &[10], |_: &VaultConfig| None);
    assert!(found.is_none());
}

#[test]
fn memo_layout_reads_both_sides() {
    let mut ctx = SpendContext::new();
    let memo = cloud_wallet_memo(&mut ctx, k1_key(), SecretKey::from_seed(&[4; 32]).public_key(), 77);
    let tree = memo_tree(&mut ctx, &memo);
    match memo_layout(&tree.root(0).memo().unwrap()) {
        MemoLayout::MofN { required, items } => {
            assert_eq!(required, 1);
            assert_eq!(items.len(), 2);
            assert!(items[0].restrictions.is_empty());
            assert_eq!(items[1].restrictions.len(), 1);
            let wrappers = items[1].restrictions[0].as_ref().expect("wrapper list");
            assert_eq!(wrappers.len(), 6);
            assert_eq!(wrappers[0], Some(list_hash(77)));
            assert!(wrappers[1..].iter().all(Option::is_none));
            assert!(matches!(
                items[0].shape,
                SideShape::Member(ItemMember::Parsed(MemoMember::Key(VaultMemberKey::K1(_))))
            ));
            assert!(matches!(
                items[1].shape,
                SideShape::Member(ItemMember::Parsed(MemoMember::Key(VaultMemberKey::Bls(_))))
            ));
        }
        MemoLayout::Member => panic!("expected a 1-of-2"),
    }
}

#[test]
fn timelock_for_list_hash_takes_first_match() {
    let hash = list_hash(43_200);
    assert_eq!(timelock_for_list_hash(&hash, &[1, 43_200, 43_200]), Some(43_200));
    assert_eq!(timelock_for_list_hash(&hash, &[1, 2, 3]), None);
    assert_eq!(timelock_for_list_hash(&hash, &[]), None);
    assert_ne!(hash, [0u8; 32]);
    assert_ne!(list_hash(1), list_hash(2));
}

#[test]
fn bytes32_equal_compares_all_bytes() {
    let mut b = [9u8; 32];
    assert!(bytes32_equal(&[9u8; 32], &b));
    b[31] = 8;
    assert!(!bytes32_equal(&[9u8; 32], &b));
}

fn side(restrictions: Vec<Option<Vec<Option<[u8; 32]>>>>, shape: SideShape) -> SideMemo {
    SideMemo { restrictions, shape }
}

fn key(n: u8) -> ItemMember {
    ItemMember::Parsed(MemoMember::Key(VaultMemberKey::K1([n; 33])))
}

#[test]
fn layout_needs_exactly_one_committed_side() {
    let committed = || Some(vec![None, Some(list_hash(5))]);
    let layout = MemoLayout::MofN {
        required: 1,
        items: vec![
            side(vec![committed()], SideShape::Member(key(1))),
            side(vec![None], SideShape::Member(key(2))),
        ],
    };
    let config = config_from_memo_layout([1u8; 32], &layout, &[4, 5]).unwrap();
    // The committed side is recovery, even when it comes first.
    assert_eq!(config.recovery.keys, vec![VaultMemberKey::K1([1; 33])]);
    assert_eq!(config.custody.keys, vec![VaultMemberKey::K1([2; 33])]);
    assert_eq!(config.recovery.clawback_timelock, 5);
    assert_eq!(config.launcher_id, format!("0x{}", "01".repeat(32)));

    let both = MemoLayout::MofN {
        required: 1,
        items: vec![
            side(vec![committed()], SideShape::Member(key(1))),
            side(vec![committed()], SideShape::Member(key(2))),
        ],
    };
    assert!(config_from_memo_layout([1u8; 32], &both, &[5]).is_none());
    let neither = MemoLayout::MofN {
        required: 1,
        items: vec![
            side(vec![], SideShape::Member(key(1))),
            side(vec![], SideShape::Member(key(2))),
        ],
    };
    assert!(config_from_memo_layout([1u8; 32], &neither, &[5]).is_none());
    assert!(config_from_memo_layout([1u8; 32], &MemoLayout::Member, &[5]).is_none());
}

#[test]
fn layout_sides_must_parse() {
    let committed = || Some(vec![Some(list_hash(9))]);
    let with_custody = |shape: SideShape| MemoLayout::MofN {
        required: 1,
        items: vec![side(vec![], shape), side(vec![committed()], SideShape::Member(key(9)))],
    };
    let two_of_three = SideShape::MofN {
        required: 2,
        items: vec![key(1), ItemMember::Parsed(MemoMember::Vault([3; 32])), key(2)],
    };
    let config = config_from_memo_layout([0u8; 32], &with_custody(two_of_three), &[9]).unwrap();
    assert_eq!(config.custody.threshold, 2);
    assert_eq!(
        config.custody.keys,
        vec![VaultMemberKey::K1([1; 33]), VaultMemberKey::K1([2; 33])]
    );
    assert_eq!(config.custody.vaults, vec![[3u8; 32]]);
    assert_eq!(config.recovery.threshold, 1);

    let zero_of_one = SideShape::MofN { required: 0, items: vec![key(1)] };
    assert!(config_from_memo_layout([0u8; 32], &with_custody(zero_of_one), &[9]).is_none());
    let empty = SideShape::MofN { required: 1, items: vec![] };
    assert!(config_from_memo_layout([0u8; 32], &with_custody(empty), &[9]).is_none());
    let nested = SideShape::MofN { required: 1, items: vec![key(1), ItemMember::NotAMember] };
    assert!(config_from_memo_layout([0u8; 32], &with_custody(nested), &[9]).is_none());
    let unparsed = SideShape::Member(ItemMember::Unparsed);
    assert!(config_from_memo_layout([0u8; 32], &with_custody(unparsed), &[9]).is_none());
    let wide = SideShape::MofN { required: (u32::MAX as usize) + 1, items: vec![key(1)] };
    assert!(config_from_memo_layout([0u8; 32], &with_custody(wide), &[9]).is_none());
}

#[test]
fn layout_requires_one_of_two() {
    let committed = || Some(vec![Some(list_hash(9))]);
    let two_of_two = MemoLayout::MofN {
        required: 2,
        items: vec![
            side(vec![], SideShape::Member(key(1))),
            side(vec![committed()], SideShape::Member(key(2))),
        ],
    };
    assert!(config_from_memo_layout([0u8; 32], &two_of_two, &[9]).is_none());
    let three = MemoLayout::MofN {
        required: 1,
        items: vec![
            side(vec![], SideShape::Member(key(1))),
            side(vec![committed()], SideShape::Member(key(2))),
            side(vec![], SideShape::Member(key(3))),
        ],
    };
    assert!(config_from_memo_layout([0u8; 32], &three, &[9]).is_none());
}

#[test]
fn member_reading_prefers_keys_in_order() {
    assert_eq!(
        member_from_parsed(Some([1; 48]), Some([2; 33]), None, None, Some([3; 32])),
        ItemMember::Parsed(MemoMember::Key(VaultMemberKey::Bls([1; 48])))
    );
    assert_eq!(
        member_from_parsed(None, None, Some([4; 33]), Some([5; 33]), None),
        ItemMember::Parsed(MemoMember::Key(VaultMemberKey::R1([4; 33])))
    );
    assert_eq!(
        member_from_parsed(None, None, None, Some([5; 33]), None),
        ItemMember::Parsed(MemoMember::Key(VaultMemberKey::Passkey([5; 33])))
    );
    assert_eq!(
        member_from_parsed(None, None, None, None, Some([3; 32])),
        ItemMember::Parsed(MemoMember::Vault([3; 32]))
    );
    assert_eq!(member_from_parsed(None, None, None, None, None), ItemMember::Unparsed);
}

#[test]
fn spend_hint_needs_hash_candidate_and_memo() {
    let mut ctx = SpendContext::new();
    let custody = k1_key();
    let recovery = SecretKey::from_seed(&[9; 32]).public_key();
    let launcher = [0x55; 32];
    let memo = cloud_wallet_memo(&mut ctx, custody, recovery, 10);
    let full_puzzle_hash = [0x66; 32];
    let by_keys = |c: &VaultConfig| {
        (c.custody.keys == vec![VaultMemberKey::K1(custody.to_bytes())]).then_some(full_puzzle_hash)
    };
    let solution = ctx.serialize(&vec![memo]).unwrap();
    let nil = ctx.serialize(&NodePtr::NIL).unwrap();
    let coin = Coin::new(Bytes32::default(), Bytes32::new(full_puzzle_hash), 1);
    let spend = CoinSpend::new(coin, nil.clone(), solution.clone());
    assert!(hinted_config_from_spend(&spend, launcher, full_puzzle_hash, &[10], by_keys).is_some());
    assert!(hinted_config_from_spend(&spend, launcher, [0x67; 32], &[10], by_keys).is_none());
    assert!(hinted_config_from_spend(&spend, launcher, full_puzzle_hash, &[], by_keys).is_none());
    assert!(hinted_config_from_spend(&spend, launcher, full_puzzle_hash, &[43_200], by_keys).is_none());
    let nil_spend = CoinSpend::new(coin, nil.clone(), nil.clone());
    assert!(hinted_config_from_spend(&nil_spend, launcher, full_puzzle_hash, &[10], by_keys).is_none());
    // The memo is found in the puzzle reveal as well.
    let in_puzzle = CoinSpend::new(coin, solution, nil);
    let found = hinted_config_from_spend(&in_puzzle, launcher, full_puzzle_hash, &[10], by_keys)
        .expect("hint in puzzle");
    assert_eq!(found.launcher_id, format!("0x{}", "55".repeat(32)));
}

fn recovery_committed(recovery: u8, custody: u8, secs: u64) -> MemoLayout {
    MemoLayout::MofN {
        required: 1,
        items: vec![
            side(vec![Some(vec![Some(list_hash(secs))])], SideShape::Member(key(recovery))),
            side(vec![], SideShape::Member(key(custody))),
        ],
    }
}

#[test]
fn first_hinted_config_takes_first_matching_layout() {
    let layouts = vec![MemoLayout::Member, recovery_committed(1, 2, 7), recovery_committed(3, 4, 7)];
    let target = [0x70; 32];
    let recovery_of = |c: &VaultConfig| c.recovery.keys[0];
    // Only the second config's vault has the target puzzle hash.
    let found = first_hinted_config([0u8; 32], &layouts, target, &[7], |c: &VaultConfig| {
        (recovery_of(c) == VaultMemberKey::K1([3; 33])).then_some(target)
    })
    .unwrap();
    assert_eq!(found.custody.keys, vec![VaultMemberKey::K1([4; 33])]);
    // When both match, the earlier layout wins.
    let found = first_hinted_config([0u8; 32], &layouts, target, &[7], |_: &VaultConfig| Some(target))
        .unwrap();
    assert_eq!(found.recovery.keys, vec![VaultMemberKey::K1([1; 33])]);
    assert_eq!(found.recovery.clawback_timelock, 7);
    // No match, no candidate, or no layout: nothing.
    assert!(first_hinted_config([0u8; 32], &layouts, target, &[7], |_: &VaultConfig| Some([0x71; 32]))
        .is_none());
    assert!(first_hinted_config([0u8; 32], &layouts, target, &[8], |_: &VaultConfig| Some(target))
        .is_none());
    assert!(first_hinted_config([0u8; 32], &vec![], target, &[7], |_: &VaultConfig| Some(target))
        .is_none());
}

#[test]
fn trees_that_hold_no_memo_yield_nothing() {
    let mut ctx = SpendContext::new();
    let nil = ctx.serialize(&NodePtr::NIL).unwrap();
    let tree = Programs::new().read(nil.as_ref()).expect("nil parses");
    assert!(tree.root(0).memo().is_none());
    // Bytes that are not a serialized program do not deserialize.
    let broken = chia_protocol::Program::from(vec![0xff]);
    assert!(Programs::new().read(broken.as_ref()).is_none());
    assert!(Programs::new().read(&[0x80, 0x80]).is_none());
    // A second program is read into the same allocator, after the first.
    let two = Programs::new().read(nil.as_ref()).unwrap().read(nil.as_ref()).unwrap();
    assert!(two.root(1).memo().is_none());
    let coin = Coin::new(Bytes32::default(), Bytes32::default(), 1);
    let spend = CoinSpend::new(coin, broken, nil);
    assert!(hinted_config_from_spend(&spend, [0; 32], [0; 32], &[10], |_: &VaultConfig| Some([0; 32]))
        .is_none());
}

#[test]
fn programs_hint_follows_walk_order() {
    let mut ctx = SpendContext::new();
    let custody = k1_key();
    let key_a = SecretKey::from_seed(&[5; 32]).public_key();
    let key_b = SecretKey::from_seed(&[6; 32]).public_key();
    let memo_a = cloud_wallet_memo(&mut ctx, custody, key_a, 10);
    let memo_b = cloud_wallet_memo(&mut ctx, custody, key_b, 10);
    let full = [0x66; 32];
    let any = |_: &VaultConfig| Some([0x66; 32]);
    let both = ctx.serialize(&vec![memo_a.clone(), memo_b.clone()]).unwrap();
    let nil = ctx.serialize(&NodePtr::NIL).unwrap();
    // The walk takes the rest of a pair before its first, so the later memo of
    // a list is found first.
    let found = hinted_config_from_programs(nil.as_ref(), both.as_ref(), [1; 32], full, &[10], any)
        .unwrap();
    assert_eq!(found.recovery.keys, vec![VaultMemberKey::Bls(key_b.to_bytes())]);
    // Only the memo whose vault matches is taken.
    let only_a = |c: &VaultConfig| {
        (c.recovery.keys == vec![VaultMemberKey::Bls(key_a.to_bytes())]).then_some([0x66; 32])
    };
    let found = hinted_config_from_programs(nil.as_ref(), both.as_ref(), [1; 32], full, &[10], only_a)
        .unwrap();
    assert_eq!(found.recovery.keys, vec![VaultMemberKey::Bls(key_a.to_bytes())]);
    // Memos in the puzzle reveal come before those in the solution.
    let in_puzzle = ctx.serialize(&vec![memo_a]).unwrap();
    let in_solution = ctx.serialize(&vec![memo_b]).unwrap();
    let found =
        hinted_config_from_programs(in_puzzle.as_ref(), in_solution.as_ref(), [1; 32], full, &[10], any)
            .unwrap();
    assert_eq!(found.recovery.keys, vec![VaultMemberKey::Bls(key_a.to_bytes())]);
    // Bytes that do not deserialize give nothing.
    assert!(hinted_config_from_programs(&[0xff], both.as_ref(), [1; 32], full, &[10], any).is_none());
    assert!(hinted_config_from_programs(nil.as_ref(), &[], [1; 32], full, &[10], any).is_none());
}

#[test]
fn one_memo_hints_one_config() {
    let mut ctx = SpendContext::new();
    let memo = cloud_wallet_memo(&mut ctx, k1_key(), SecretKey::from_seed(&[8; 32]).public_key(), 60);
    let first = memo_tree(&mut ctx, &memo);
    let second = memo_tree(&mut ctx, &memo);
    let a = memo_layout(&first.root(0).memo().unwrap());
    let b = memo_layout(&second.root(0).memo().unwrap());
    let config_a = config_from_memo_layout([2; 32], &a, &[60]).unwrap();
    let config_b = config_from_memo_layout([2; 32], &b, &[60]).unwrap();
    assert_eq!(config_a.launcher_id, config_b.launcher_id);
    assert_eq!(config_a.custody.keys, config_b.custody.keys);
    assert_eq!(config_a.recovery.keys, config_b.recovery.keys);
    assert_eq!(config_a.recovery.clawback_timelock, 60);
    assert_eq!(config_b.recovery.clawback_timelock, 60);
}
