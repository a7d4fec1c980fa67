//! Read the Cloud Wallet CHIP-0043 memo that hints vault recovery details.
//!
//! A vault singleton spend (including the launcher mint) attaches this memo to
//! the recreated singleton. It reveals custody and recovery members and commits
//! to the clawback timelock. That memo is the primary source for the public layout.

use vstd::prelude::*;

use std::collections::HashSet;

use chia_protocol::CoinSpend;

use crate::clvm::{
    clvm_byte_atom, clvm_is_pair, clvm_reads, clvm_node_index, member_memo_parses,
    memo_kind, memo_restriction_count, mips_memo_parses, parsed_bls_of, parsed_k1_of,
    parsed_passkey_of, parsed_r1_of, parsed_singleton_of, restriction_reads, spend_puzzle_bytes,
    spend_solution_bytes, Inner, InnerKind, Member, Memo, Node, Programs,
};
use crate::config::VaultConfig;
use crate::layout::{
    bytes32_equal, config_from_memo_layout, hinted_layout, is_config_for,
    law_hinted_timelock_is_a_candidate, member_from_parsed, member_reading, restrictions_timelock,
    side_members, ItemMember, MemoLayout, SideMemo, SideShape,
};
use crate::text::{hex_decode, hex_lower, law_hex_lower_spells_the_bytes};

verus! {

// ---------------------------------------------------------------------------
// What a memo encodes, over the names of the outside parses.
/// The reading of the member memo of the inner puzzle memo at `items`: the
/// key or vault its parse yields, or `Unparsed` when it does not parse.
pub open spec fn member_item(bytes: Seq<Seq<u8>>, memo: Seq<bool>, items: Seq<usize>) -> ItemMember {
    if member_memo_parses(bytes, memo, items) {
        member_reading(
            parsed_bls_of(bytes, memo, items),
            parsed_k1_of(bytes, memo, items),
            parsed_r1_of(bytes, memo, items),
            parsed_passkey_of(bytes, memo, items),
            parsed_singleton_of(bytes, memo, items),
        )
    } else {
        ItemMember::Unparsed
    }
}

/// What item `j` of the M-of-N at `items` reads as: its member, or
/// `NotAMember` for a nested M-of-N.
pub open spec fn nested_item(bytes: Seq<Seq<u8>>, memo: Seq<bool>, items: Seq<usize>, j: int) -> ItemMember {
    if memo_kind(bytes, memo, items.push(j as usize)) is None {
        member_item(bytes, memo, items.push(j as usize))
    } else {
        ItemMember::NotAMember
    }
}

/// `shape` is the shape of the inner puzzle memo at `items`.
pub open spec fn shape_reads(shape: SideShape, bytes: Seq<Seq<u8>>, memo: Seq<bool>, items: Seq<usize>) -> bool {
    match memo_kind(bytes, memo, items) {
        None => shape == SideShape::Member(member_item(bytes, memo, items)),
        Some((required, n)) => match shape {
            SideShape::MofN { required: r, items: members } => {
                &&& r == required
                &&& members@.len() == n
                &&& forall|j: int|
                    0 <= j < n ==> #[trigger] members@[j] == nested_item(bytes, memo, items, j)
            },
            SideShape::Member(_) => false,
        },
    }
}

/// `side` is what the inner puzzle memo at `items` encodes: its restrictions,
/// in order, and its shape.
pub open spec fn side_reads(side: SideMemo, bytes: Seq<Seq<u8>>, memo: Seq<bool>, items: Seq<usize>) -> bool {
    &&& side.restrictions@.len() == memo_restriction_count(bytes, memo, items)
    &&& forall|r: int|
        0 <= r < side.restrictions@.len() ==> restriction_reads(
            #[trigger] side.restrictions@[r],
            bytes,
            memo,
            items,
            r,
        )
    &&& shape_reads(side.shape, bytes, memo, items)
}

/// `layout` is what the memo parsed at `memo` in the program `bytes`
/// encodes: `Member` when its inner puzzle is a member, otherwise the M-of-N
/// with each item's side, in order.
pub open spec fn layout_reads(layout: MemoLayout, bytes: Seq<Seq<u8>>, memo: Seq<bool>) -> bool {
    match memo_kind(bytes, memo, Seq::empty()) {
        None => layout is Member,
        Some((required, n)) => match layout {
            MemoLayout::MofN { required: r, items } => {
                &&& r == required
                &&& items@.len() == n
                &&& forall|i: int|
                    0 <= i < n ==> side_reads(
                        #[trigger] items@[i],
                        bytes,
                        memo,
                        Seq::<usize>::empty().push(i as usize),
                    )
            },
            MemoLayout::Member => false,
        },
    }
}

// ---------------------------------------------------------------------------
// From a memo to its layout.
/// A member memo as a vault side reads it: a key, another vault, or nothing
/// usable (unparsed, a fixed puzzle or a custom member).
fn item_member(member: &Member) -> (r: ItemMember)
    ensures
        r == member_item(member.place().0, member.place().1, member.place().2),
{
    match member.parsed() {
        Some((bls, k1, r1, passkey, singleton)) => member_from_parsed(bls, k1, r1, passkey, singleton),
        None => ItemMember::Unparsed,
    }
}

/// One side of the top-level M-of-N, as the hint logic reads it.
fn side_view(inner: &Inner) -> (r: SideMemo)
    ensures
        side_reads(r, inner.place().0, inner.place().1, inner.place().2),
{
    let ghost (b, m, p) = inner.place();
    let restrictions = inner.restrictions();
    let mut views: Vec<Option<Vec<Option<[u8; 32]>>>> = Vec::new();
    let n = restrictions.len();
    let mut i: usize = 0;
    while i < n
        invariant
            i <= n,
            n == restrictions.count(),
            restrictions.place() == (b, m, p),
            views@.len() == i,
            forall|r: int| 0 <= r < i ==> restriction_reads(#[trigger] views@[r], b, m, p, r),
        decreases n - i,
    {
        views.push(restrictions.get(i).list_hashes());
        i = i + 1;
    }
    let shape = match inner.kind() {
        InnerKind::Member(member) => SideShape::Member(item_member(&member)),
        InnerKind::MofN(required, items) => {
            let mut members: Vec<ItemMember> = Vec::new();
            let k = items.len();
            let mut j: usize = 0;
            while j < k
                invariant
                    j <= k,
                    k == items.count(),
                    items.place() == (b, m, p),
                    members@.len() == j,
                    forall|x: int| 0 <= x < j ==> #[trigger] members@[x] == nested_item(b, m, p, x),
                decreases k - j,
            {
                let item = items.get(j);
                let reading = match item.kind() {
                    InnerKind::Member(member) => item_member(&member),
                    InnerKind::MofN(_, _) => ItemMember::NotAMember,
                };
                members.push(reading);
                j = j + 1;
            }
            SideShape::MofN { required, items: members }
        },
    };
    SideMemo { restrictions: views, shape }
}

/// The part of a CHIP-0043 memo that the hint logic reads: whether its
/// inner puzzle is an M-of-N and, for each item, its restrictions and members.
pub fn memo_layout(memo: &Memo) -> (r: MemoLayout)
    ensures
        layout_reads(r, memo.src(), memo.path()),
{
    let top = memo.inner();
    match top.kind() {
        InnerKind::Member(_) => MemoLayout::Member,
        InnerKind::MofN(required, items) => {
            let mut sides: Vec<SideMemo> = Vec::new();
            let n = items.len();
            let mut i: usize = 0;
            while i < n
                invariant
                    i <= n,
                    n == items.count(),
                    items.place() == (memo.src(), memo.path(), Seq::<usize>::empty()),
                    sides@.len() == i,
                    forall|k: int|
                        0 <= k < i ==> side_reads(
                            #[trigger] sides@[k],
                            memo.src(),
                            memo.path(),
                            Seq::<usize>::empty().push(k as usize),
                        ),
                decreases n - i,
            {
                sides.push(side_view(&items.get(i)));
                i = i + 1;
            }
            MemoLayout::MofN { required, items: sides }
        },
    }
}

// ---------------------------------------------------------------------------
// A memo encodes one layout, as far as the hint reads it.
/// Two readings of one restriction agree on the hashes they list.
proof fn lemma_restriction_reads_agree(
    r1: Option<Vec<Option<[u8; 32]>>>,
    r2: Option<Vec<Option<[u8; 32]>>>,
    src: Seq<Seq<u8>>,
    memo: Seq<bool>,
    items: Seq<usize>,
    restriction: int,
)
    requires
        restriction_reads(r1, src, memo, items, restriction),
        restriction_reads(r2, src, memo, items, restriction),
    ensures
        r1 is None <==> r2 is None,
        r1 is Some ==> r1->0@ == r2->0@,
{
    if r1 is Some {
        let v1 = r1->0@;
        let v2 = r2->0@;
        assert forall|w: int| 0 <= w < v1.len() implies v1[w] == v2[w] by {
            if v1[w] is Some {
                let h1 = v1[w]->0;
                let h2 = v2[w]->0;
                assert(h1@ == h2@);
                assert forall|i: int| 0 <= i < 32 implies h1[i] == h2[i] by {
                    assert(h1@[i] == h2@[i]);
                }
                assert(h1 =~= h2);
            }
        }
        assert(v1 =~= v2);
    }
}

/// Restriction lists that agree entry by entry commit to the same timelock.
proof fn lemma_restrictions_timelock_agree(
    s1: Seq<Option<Vec<Option<[u8; 32]>>>>,
    s2: Seq<Option<Vec<Option<[u8; 32]>>>>,
    candidates: Seq<u64>,
)
    requires
        s1.len() == s2.len(),
        forall|k: int|
            0 <= k < s1.len() ==> (#[trigger] s1[k] is None <==> s2[k] is None) && (s1[k] is Some
                ==> s1[k]->0@ == s2[k]->0@),
    ensures
        restrictions_timelock(s1, candidates) == restrictions_timelock(s2, candidates),
    decreases s1.len(),
{
    if s1.len() > 0 {
        assert(s1[0] is None <==> s2[0] is None);
        lemma_restrictions_timelock_agree(s1.drop_first(), s2.drop_first(), candidates);
    }
}

/// Two readings of one inner puzzle memo agree on its timelock and members.
proof fn lemma_side_reads_agree(
    a: SideMemo,
    b: SideMemo,
    src: Seq<Seq<u8>>,
    memo: Seq<bool>,
    items: Seq<usize>,
    candidates: Seq<u64>,
)
    requires
        side_reads(a, src, memo, items),
        side_reads(b, src, memo, items),
    ensures
        restrictions_timelock(a.restrictions@, candidates) == restrictions_timelock(
            b.restrictions@,
            candidates,
        ),
        side_members(a.shape) == side_members(b.shape),
{
    assert forall|k: int| 0 <= k < a.restrictions@.len() implies (#[trigger] a.restrictions@[k]
        is None <==> b.restrictions@[k] is None) && (a.restrictions@[k] is Some
        ==> a.restrictions@[k]->0@ == b.restrictions@[k]->0@) by {
        lemma_restriction_reads_agree(a.restrictions@[k], b.restrictions@[k], src, memo, items, k);
    }
    lemma_restrictions_timelock_agree(a.restrictions@, b.restrictions@, candidates);
    match (a.shape, b.shape) {
        (SideShape::MofN { items: x, .. }, SideShape::MofN { items: y, .. }) => {
            assert(x@ =~= y@);
        },
        _ => {},
    }
}

/// Every reading of a memo hints the same thing: what the hint reads of a
/// layout is fixed by the memo it was read from.
pub proof fn law_memo_hint_is_determined(
    a: MemoLayout,
    b: MemoLayout,
    src: Seq<Seq<u8>>,
    memo: Seq<bool>,
    candidates: Seq<u64>,
)
    requires
        layout_reads(a, src, memo),
        layout_reads(b, src, memo),
    ensures
        hinted_layout(a, candidates) == hinted_layout(b, candidates),
{
    match (a, b) {
        (MemoLayout::MofN { items: x, .. }, MemoLayout::MofN { items: y, .. }) => {
            if x@.len() == 2 {
                let first = Seq::<usize>::empty().push(0usize);
                let second = Seq::<usize>::empty().push(1usize);
                lemma_side_reads_agree(x@[0], y@[0], src, memo, first, candidates);
                lemma_side_reads_agree(x@[1], y@[1], src, memo, second, candidates);
            }
        },
        _ => {},
    }
}

/// `r` is what `config_from_memo_layout` gives for `layout`: a config exactly
/// when the layout hints one among the candidates, and then that config.
pub open spec fn is_layout_config(
    r: Option<VaultConfig>,
    launcher_id: Seq<u8>,
    layout: MemoLayout,
    candidates: Seq<u64>,
) -> bool {
    &&& r is Some <==> hinted_layout(layout, candidates) is Some
    &&& r matches Some(config) ==> is_config_for(
        config,
        launcher_id,
        hinted_layout(layout, candidates)->0,
    )
}

/// Public layout from a CHIP-0043 memo, trying only `timelock_candidates`
/// against the committed timelock hash.
///
/// The result is that of [`config_from_memo_layout`] on the layout the memo
/// encodes.
pub fn config_from_mips_memo(memo: &Memo, launcher_id: [u8; 32], timelock_candidates: &[u64]) -> (r:
    Option<VaultConfig>)
    ensures
        exists|layout: MemoLayout| #[trigger] layout_reads(layout, memo.src(), memo.path()),
        forall|layout: MemoLayout|
            #[trigger] layout_reads(layout, memo.src(), memo.path()) ==> is_layout_config(
                r,
                launcher_id@,
                layout,
                timelock_candidates@,
            ),
        r matches Some(config) ==> timelock_candidates@.contains(config.recovery.clawback_timelock)
            && config.launcher_id@ == "0x"@ + hex_lower(launcher_id@),
{
    let layout = memo_layout(memo);
    let r = config_from_memo_layout(launcher_id, &layout, timelock_candidates);
    assert(is_layout_config(r, launcher_id@, layout, timelock_candidates@));
    assert forall|other: MemoLayout| #[trigger]
        layout_reads(other, memo.src(), memo.path()) implies is_layout_config(
        r,
        launcher_id@,
        other,
        timelock_candidates@,
    ) by {
        law_memo_hint_is_determined(layout, other, memo.src(), memo.path(), timelock_candidates@);
    }
    proof {
        if r is Some {
            law_hinted_config_is_sound(r->0, launcher_id@, layout, timelock_candidates@);
        }
    }
    r
}

// ---------------------------------------------------------------------------
// The memos that a program carries.
/// The bytes of `CHIP-0043`, the namespace that opens every MIPS memo.
pub const CHIP_NAMESPACE: [u8; 9] = [0x43, 0x48, 0x49, 0x50, 0x2d, 0x30, 0x30, 0x34, 0x33];

/// Equality of a byte vector with the namespace.
fn is_namespace_bytes(bytes: &Vec<u8>) -> (r: bool)
    ensures
        r == (bytes@ == CHIP_NAMESPACE@),
{
    if bytes.len() != 9 {
        return false;
    }
    let mut i: usize = 0;
    while i < 9
        invariant
            i <= 9,
            bytes@.len() == 9,
            forall|k: int| 0 <= k < i ==> bytes@[k] == CHIP_NAMESPACE@[k],
        decreases 9 - i,
    {
        if bytes[i] != CHIP_NAMESPACE[i] {
            return false;
        }
        i = i + 1;
    }
    assert(bytes@ =~= CHIP_NAMESPACE@);
    true
}

/// The node is a byte atom that reads `CHIP-0043`.
fn is_chip_namespace(node: &Node) -> (r: bool)
    ensures
        r == (clvm_byte_atom(node.src(), node.path()) == Some(CHIP_NAMESPACE@)),
{
    match node.byte_atom() {
        Some(bytes) => is_namespace_bytes(&bytes),
        None => false,
    }
}

/// The most nodes that one walk visits.
pub const MAX_WALK_STEPS: u32 = 200_000;

/// The memos that a depth-first walk of the program `bytes` finds, by the
/// paths of their nodes, in the order found. The walk takes the last path of
/// `stack`; it stops when the stack is empty or `MAX_WALK_STEPS` nodes have
/// been taken. A node whose index is in `seen` is skipped; otherwise its
/// index is added, and if it is a pair, it is found when its first is the
/// byte atom `CHIP-0043` and it parses as a memo, and its first and then its
/// rest are pushed.
pub open spec fn walk_memos(bytes: Seq<Seq<u8>>, stack: Seq<Seq<bool>>, seen: Set<u32>, steps: nat) -> Seq<
    Seq<bool>,
>
    decreases MAX_WALK_STEPS - steps,
{
    if stack.len() == 0 || steps >= MAX_WALK_STEPS {
        Seq::empty()
    } else {
        let path = stack.last();
        let rest = stack.drop_last();
        let index = clvm_node_index(bytes, path);
        if seen.contains(index) {
            walk_memos(bytes, rest, seen, steps + 1)
        } else if !clvm_is_pair(bytes, path) {
            walk_memos(bytes, rest, seen.insert(index), steps + 1)
        } else {
            let first = path.push(false);
            let found = if clvm_byte_atom(bytes, first) == Some(CHIP_NAMESPACE@) && mips_memo_parses(
                bytes,
                path,
            ) {
                seq![path]
            } else {
                Seq::empty()
            };
            found + walk_memos(
                bytes,
                rest.push(first).push(path.push(true)),
                seen.insert(index),
                steps + 1,
            )
        }
    }
}

/// The memos found in the last program of `bytes`, walking from its root.
pub open spec fn program_memos(bytes: Seq<Seq<u8>>) -> Seq<Seq<bool>> {
    walk_memos(bytes, seq![Seq::<bool>::empty()], Set::empty(), 0)
}

/// The paths of a list of memos.
pub open spec fn memo_paths<'a>(memos: Seq<Memo<'a>>) -> Seq<Seq<bool>> {
    memos.map_values(|m: Memo<'a>| m.path())
}

/// The paths of a stack of nodes.
pub open spec fn node_paths<'a>(nodes: Seq<Node<'a>>) -> Seq<Seq<bool>> {
    nodes.map_values(|n: Node<'a>| n.path())
}

/// Walks the CLVM tree under `root` depth-first, each node index once and at
/// most `MAX_WALK_STEPS` nodes, and appends every pair that opens with the
/// `CHIP-0043` namespace and parses as a `MipsMemo`.
fn collect_mips_memos<'a>(root: Node<'a>, out: &mut Vec<Memo<'a>>)
    ensures
        memo_paths(final(out)@) == memo_paths(old(out)@) + walk_memos(
            root.src(),
            seq![root.path()],
            Set::empty(),
            0,
        ),
        final(out)@.subrange(0, old(out)@.len() as int) == old(out)@,
        forall|k: int|
            old(out)@.len() <= k < final(out)@.len() ==> (#[trigger] final(out)@[k]).src()
                == root.src(),
{
    broadcast use vstd::std_specs::hash::group_hash_axioms;

    let ghost src = root.src();
    let ghost start = old(out)@;
    let ghost total = memo_paths(start) + walk_memos(src, seq![root.path()], Set::empty(), 0);
    let mut stack: Vec<Node<'a>> = Vec::new();
    stack.push(root);
    assert(node_paths(stack@) =~= seq![root.path()]);
    let mut seen: HashSet<u32> = HashSet::new();
    let mut steps: u32 = 0;
    loop
        invariant
            steps <= MAX_WALK_STEPS,
            out@.len() >= start.len(),
            out@.subrange(0, start.len() as int) == start,
            forall|k: int| start.len() <= k < out@.len() ==> (#[trigger] out@[k]).src() == src,
            forall|k: int| 0 <= k < stack@.len() ==> (#[trigger] stack@[k]).src() == src,
            memo_paths(out@) + walk_memos(src, node_paths(stack@), seen@, steps as nat) == total,
        ensures
            memo_paths(out@) == total,
            out@.subrange(0, start.len() as int) == start,
            forall|k: int| start.len() <= k < out@.len() ==> (#[trigger] out@[k]).src() == src,
        decreases MAX_WALK_STEPS - steps,
    {
        let ghost before_stack = stack@;
        let ghost before_seen = seen@;
        let ghost before_out = out@;
        let ghost before_steps = steps as nat;
        let node = match stack.pop() {
            Some(node) => node,
            None => {
                assert(node_paths(before_stack).len() == 0);
                assert(memo_paths(out@) + Seq::<Seq<bool>>::empty() =~= memo_paths(out@));
                break;
            },
        };
        if steps >= MAX_WALK_STEPS {
            assert(memo_paths(out@) + Seq::<Seq<bool>>::empty() =~= memo_paths(out@));
            break;
        }
        let ghost path = node.path();
        let ghost rest_paths = node_paths(stack@);
        assert(node_paths(before_stack) =~= rest_paths.push(path));
        assert(node_paths(before_stack).last() == path);
        assert(node_paths(before_stack).drop_last() =~= rest_paths);
        steps = steps + 1;
        let index = node.index();
        if !seen.insert(index) {
            assert(seen@ =~= before_seen);
            assert(walk_memos(src, node_paths(before_stack), before_seen, before_steps) == walk_memos(
                src,
                rest_paths,
                before_seen,
                steps as nat,
            ));
            continue;
        }
        let (first, rest) = match node.pair() {
            Some(pair) => pair,
            None => {
                assert(walk_memos(src, node_paths(before_stack), before_seen, before_steps)
                    == walk_memos(src, rest_paths, seen@, steps as nat));
                continue;
            },
        };
        let ghost found: Seq<Seq<bool>> = if clvm_byte_atom(src, path.push(false)) == Some(
            CHIP_NAMESPACE@,
        ) && mips_memo_parses(src, path) {
            seq![path]
        } else {
            Seq::empty()
        };
        if is_chip_namespace(&first) {
            if let Some(memo) = node.memo() {
                out.push(memo);
                assert(out@.subrange(0, start.len() as int) =~= before_out.subrange(
                    0,
                    start.len() as int,
                ));
            }
        }
        assert(memo_paths(out@) =~= memo_paths(before_out) + found);
        stack.push(first);
        stack.push(rest);
        assert(node_paths(stack@) =~= rest_paths.push(path.push(false)).push(path.push(true)));
        assert(walk_memos(src, node_paths(before_stack), before_seen, before_steps) == found
            + walk_memos(src, node_paths(stack@), seen@, steps as nat));
        assert(memo_paths(out@) + walk_memos(src, node_paths(stack@), seen@, steps as nat)
            =~= memo_paths(before_out) + (found + walk_memos(
            src,
            node_paths(stack@),
            seen@,
            steps as nat,
        )));
    }
}

/// Calling `vault_puzzle_hash` on `config` can give `full_puzzle_hash`.
pub open spec fn puzzle_hash_matches<F: Fn(&VaultConfig) -> Option<[u8; 32]>>(
    vault_puzzle_hash: F,
    config: VaultConfig,
    full_puzzle_hash: [u8; 32],
) -> bool {
    exists|h: [u8; 32]|
        #[trigger] vault_puzzle_hash.ensures((&config,), Some(h)) && h@ == full_puzzle_hash@
}

/// Calling `vault_puzzle_hash` on `config` can give something other than
/// `full_puzzle_hash`.
pub open spec fn puzzle_hash_misses<F: Fn(&VaultConfig) -> Option<[u8; 32]>>(
    vault_puzzle_hash: F,
    config: VaultConfig,
    full_puzzle_hash: [u8; 32],
) -> bool {
    exists|o: Option<[u8; 32]>|
        #[trigger] vault_puzzle_hash.ensures((&config,), o) && !(o matches Some(h) && h@
            == full_puzzle_hash@)
}

/// The layout hints no config, or hints one on which `vault_puzzle_hash`
/// misses `full_puzzle_hash`.
pub open spec fn layout_passed_over<F: Fn(&VaultConfig) -> Option<[u8; 32]>>(
    vault_puzzle_hash: F,
    launcher_id: Seq<u8>,
    layout: MemoLayout,
    candidates: Seq<u64>,
    full_puzzle_hash: [u8; 32],
) -> bool {
    hinted_layout(layout, candidates) is Some ==> exists|config: VaultConfig|
        #[trigger] is_config_for(config, launcher_id, hinted_layout(layout, candidates)->0)
            && puzzle_hash_misses(vault_puzzle_hash, config, full_puzzle_hash)
}

/// `r` is the config hinted by the first of `layouts` whose config
/// `vault_puzzle_hash` maps to `full_puzzle_hash`; nothing when no layout's
/// config does.
pub open spec fn is_first_hinted_config<F: Fn(&VaultConfig) -> Option<[u8; 32]>>(
    vault_puzzle_hash: F,
    r: Option<VaultConfig>,
    launcher_id: Seq<u8>,
    layouts: Seq<MemoLayout>,
    candidates: Seq<u64>,
    full_puzzle_hash: [u8; 32],
) -> bool {
    match r {
        Some(config) => exists|i: int|
            0 <= i < layouts.len() && #[trigger] hinted_layout(layouts[i], candidates) is Some
                && is_config_for(config, launcher_id, hinted_layout(layouts[i], candidates)->0)
                && puzzle_hash_matches(vault_puzzle_hash, config, full_puzzle_hash) && forall|j: int|
                0 <= j < i ==> layout_passed_over(
                    vault_puzzle_hash,
                    launcher_id,
                    #[trigger] layouts[j],
                    candidates,
                    full_puzzle_hash,
                ),
        None => forall|j: int|
            0 <= j < layouts.len() ==> layout_passed_over(
                vault_puzzle_hash,
                launcher_id,
                #[trigger] layouts[j],
                candidates,
                full_puzzle_hash,
            ),
    }
}

/// Layout lists that hint the same, entry by entry, have the same first
/// hinted config.
proof fn lemma_first_hinted_agree<F: Fn(&VaultConfig) -> Option<[u8; 32]>>(
    vault_puzzle_hash: F,
    r: Option<VaultConfig>,
    launcher_id: Seq<u8>,
    a: Seq<MemoLayout>,
    b: Seq<MemoLayout>,
    candidates: Seq<u64>,
    full_puzzle_hash: [u8; 32],
)
    requires
        a.len() == b.len(),
        forall|i: int|
            0 <= i < a.len() ==> hinted_layout(#[trigger] a[i], candidates) == hinted_layout(
                b[i],
                candidates,
            ),
        is_first_hinted_config(vault_puzzle_hash, r, launcher_id, a, candidates, full_puzzle_hash),
    ensures
        is_first_hinted_config(vault_puzzle_hash, r, launcher_id, b, candidates, full_puzzle_hash),
{
    assert forall|j: int|
        0 <= j < a.len() && layout_passed_over(
            vault_puzzle_hash,
            launcher_id,
            a[j],
            candidates,
            full_puzzle_hash,
        ) implies layout_passed_over(
        vault_puzzle_hash,
        launcher_id,
        #[trigger] b[j],
        candidates,
        full_puzzle_hash,
    ) by {
        assert(hinted_layout(a[j], candidates) == hinted_layout(b[j], candidates));
    }
    if r is Some {
        let config = r->0;
        let i = choose|i: int|
            0 <= i < a.len() && #[trigger] hinted_layout(a[i], candidates) is Some && is_config_for(
                config,
                launcher_id,
                hinted_layout(a[i], candidates)->0,
            ) && puzzle_hash_matches(vault_puzzle_hash, config, full_puzzle_hash) && forall|j: int|
                0 <= j < i ==> layout_passed_over(
                    vault_puzzle_hash,
                    launcher_id,
                    #[trigger] a[j],
                    candidates,
                    full_puzzle_hash,
                );
        assert(hinted_layout(a[i], candidates) == hinted_layout(b[i], candidates));
        assert forall|j: int| 0 <= j < i implies layout_passed_over(
            vault_puzzle_hash,
            launcher_id,
            #[trigger] b[j],
            candidates,
            full_puzzle_hash,
        ) by {
            assert(layout_passed_over(vault_puzzle_hash, launcher_id, a[j], candidates, full_puzzle_hash));
        }
        assert(hinted_layout(b[i], candidates) is Some);
    }
}

/// The config hinted by the first of `layouts` whose config
/// `vault_puzzle_hash` maps to `full_puzzle_hash`, trying only
/// `timelock_candidates` against each committed timelock hash.
pub fn first_hinted_config<F>(
    launcher_id: [u8; 32],
    layouts: &Vec<MemoLayout>,
    full_puzzle_hash: [u8; 32],
    timelock_candidates: &[u64],
    vault_puzzle_hash: F,
) -> (r: Option<VaultConfig>) where F: Fn(&VaultConfig) -> Option<[u8; 32]>
    requires
        forall|config: &VaultConfig| #[trigger] vault_puzzle_hash.requires((config,)),
    ensures
        is_first_hinted_config(
            vault_puzzle_hash,
            r,
            launcher_id@,
            layouts@,
            timelock_candidates@,
            full_puzzle_hash,
        ),
{
    let n = layouts.len();
    let mut i: usize = 0;
    while i < n
        invariant
            i <= n,
            n == layouts@.len(),
            forall|config: &VaultConfig| #[trigger] vault_puzzle_hash.requires((config,)),
            forall|j: int|
                0 <= j < i ==> layout_passed_over(
                    vault_puzzle_hash,
                    launcher_id@,
                    #[trigger] layouts@[j],
                    timelock_candidates@,
                    full_puzzle_hash,
                ),
        decreases n - i,
    {
        if let Some(config) = config_from_memo_layout(launcher_id, &layouts[i], timelock_candidates) {
            let out = vault_puzzle_hash(&config);
            let hit = match out {
                Some(hash) => bytes32_equal(&hash, &full_puzzle_hash),
                None => false,
            };
            if hit {
                assert(hinted_layout(layouts@[i as int], timelock_candidates@) is Some);
                return Some(config);
            }
            assert(is_config_for(
                config,
                launcher_id@,
                hinted_layout(layouts@[i as int], timelock_candidates@)->0,
            ));
            assert(puzzle_hash_misses(vault_puzzle_hash, config, full_puzzle_hash));
        }
        i = i + 1;
    }
    None
}

/// The memos of a spend, by their places: those found in the puzzle reveal,
/// read first, then those found in the solution, read after it.
pub open spec fn spend_memos(puzzle: Seq<u8>, solution: Seq<u8>) -> Seq<(Seq<Seq<u8>>, Seq<bool>)> {
    program_memos(seq![puzzle]).map_values(|p: Seq<bool>| (seq![puzzle], p)) + program_memos(
        seq![puzzle, solution],
    ).map_values(|p: Seq<bool>| (seq![puzzle, solution], p))
}

/// `layouts` are the layouts that the memos at `places` encode, in order.
pub open spec fn layouts_read(layouts: Seq<MemoLayout>, places: Seq<(Seq<Seq<u8>>, Seq<bool>)>) -> bool {
    &&& layouts.len() == places.len()
    &&& forall|i: int|
        0 <= i < layouts.len() ==> layout_reads(#[trigger] layouts[i], places[i].0, places[i].1)
}

/// What the hint of a spend is, given its puzzle reveal and solution bytes:
/// nothing when either does not deserialize; otherwise the config of the first
/// of the spend's memos whose config `vault_puzzle_hash` maps to
/// `full_puzzle_hash`, trying only `candidates`.
pub open spec fn is_spend_hint<F: Fn(&VaultConfig) -> Option<[u8; 32]>>(
    vault_puzzle_hash: F,
    r: Option<VaultConfig>,
    puzzle: Seq<u8>,
    solution: Seq<u8>,
    launcher_id: Seq<u8>,
    candidates: Seq<u64>,
    full_puzzle_hash: [u8; 32],
) -> bool {
    if clvm_reads(Seq::empty(), puzzle) && clvm_reads(seq![puzzle], solution) {
        &&& exists|layouts: Seq<MemoLayout>| #[trigger] layouts_read(layouts, spend_memos(puzzle, solution))
        &&& forall|layouts: Seq<MemoLayout>|
            #[trigger] layouts_read(layouts, spend_memos(puzzle, solution)) ==> is_first_hinted_config(
                vault_puzzle_hash,
                r,
                launcher_id,
                layouts,
                candidates,
                full_puzzle_hash,
            )
    } else {
        r is None
    }
}

/// Public layout from a CHIP-0043 memo whose singleton puzzle matches
/// `full_puzzle_hash`, given the serialized puzzle reveal and solution of a
/// spend.
///
/// Every memo in the puzzle and then in the solution is read in turn, trying
/// only `timelock_candidates` against the committed timelock hash; the first
/// config for which `vault_puzzle_hash` gives `full_puzzle_hash` is returned.
pub fn hinted_config_from_programs<F>(
    puzzle: &[u8],
    solution: &[u8],
    launcher_id: [u8; 32],
    full_puzzle_hash: [u8; 32],
    timelock_candidates: &[u64],
    vault_puzzle_hash: F,
) -> (r: Option<VaultConfig>) where F: Fn(&VaultConfig) -> Option<[u8; 32]>
    requires
        forall|config: &VaultConfig| #[trigger] vault_puzzle_hash.requires((config,)),
    ensures
        is_spend_hint(
            vault_puzzle_hash,
            r,
            puzzle@,
            solution@,
            launcher_id@,
            timelock_candidates@,
            full_puzzle_hash,
        ),
        r matches Some(config) ==> timelock_candidates@.contains(config.recovery.clawback_timelock)
            && puzzle_hash_matches(vault_puzzle_hash, config, full_puzzle_hash),
{
    let programs = match Programs::new().read(puzzle) {
        Some(programs) => programs,
        None => {
            return None;
        },
    };
    let programs = match programs.read(solution) {
        Some(programs) => programs,
        None => {
            return None;
        },
    };
    assert(programs.srcs().subrange(0, 1) =~= seq![puzzle@]);
    assert(programs.srcs().subrange(0, 2) =~= seq![puzzle@, solution@]);
    let mut memos: Vec<Memo> = Vec::new();
    let puzzle_root = programs.root(0);
    collect_mips_memos(puzzle_root, &mut memos);
    let ghost after_puzzle = memos@;
    let solution_root = programs.root(1);
    collect_mips_memos(solution_root, &mut memos);
    let ghost places = spend_memos(puzzle@, solution@);
    proof {
        let pm = program_memos(seq![puzzle@]);
        let sm = program_memos(seq![puzzle@, solution@]);
        assert(memo_paths(after_puzzle) =~= pm);
        assert(memo_paths(memos@) =~= pm + sm);
        assert(after_puzzle.len() == pm.len());
        assert(memos@.len() == pm.len() + sm.len());
        assert forall|k: int| 0 <= k < memos@.len() implies (#[trigger] memos@[k]).src() == places[k].0
            && memos@[k].path() == places[k].1 by {
            assert(memo_paths(memos@)[k] == memos@[k].path());
            if k < pm.len() {
                assert(memos@.subrange(0, after_puzzle.len() as int)[k] == memos@[k]);
                assert(after_puzzle[k] == memos@[k]);
                assert(places[k] == (seq![puzzle@], pm[k]));
            } else {
                assert(places[k] == (seq![puzzle@, solution@], sm[k - pm.len()]));
            }
        }
    }
    let mut layouts: Vec<MemoLayout> = Vec::new();
    let n = memos.len();
    let mut i: usize = 0;
    while i < n
        invariant
            i <= n,
            n == memos@.len(),
            n == places.len(),
            layouts@.len() == i,
            forall|k: int|
                0 <= k < n ==> (#[trigger] memos@[k]).src() == places[k].0 && memos@[k].path()
                    == places[k].1,
            forall|k: int|
                0 <= k < i ==> layout_reads(#[trigger] layouts@[k], places[k].0, places[k].1),
        decreases n - i,
    {
        layouts.push(memo_layout(&memos[i]));
        i = i + 1;
    }
    let r = first_hinted_config(
        launcher_id,
        &layouts,
        full_puzzle_hash,
        timelock_candidates,
        vault_puzzle_hash,
    );
    proof {
        assert(layouts_read(layouts@, places));
        assert forall|other: Seq<MemoLayout>| #[trigger] layouts_read(other, places) implies is_first_hinted_config(
            vault_puzzle_hash,
            r,
            launcher_id@,
            other,
            timelock_candidates@,
            full_puzzle_hash,
        ) by {
            assert forall|i: int| 0 <= i < layouts@.len() implies hinted_layout(
                #[trigger] layouts@[i],
                timelock_candidates@,
            ) == hinted_layout(other[i], timelock_candidates@) by {
                law_memo_hint_is_determined(
                    layouts@[i],
                    other[i],
                    places[i].0,
                    places[i].1,
                    timelock_candidates@,
                );
            }
            lemma_first_hinted_agree(
                vault_puzzle_hash,
                r,
                launcher_id@,
                layouts@,
                other,
                timelock_candidates@,
                full_puzzle_hash,
            );
        }
        if r is Some {
            let config = r->0;
            let k = choose|k: int|
                0 <= k < layouts@.len() && #[trigger] hinted_layout(layouts@[k], timelock_candidates@)
                    is Some && is_config_for(
                    config,
                    launcher_id@,
                    hinted_layout(layouts@[k], timelock_candidates@)->0,
                ) && puzzle_hash_matches(vault_puzzle_hash, config, full_puzzle_hash)
                    && forall|j: int|
                    0 <= j < k ==> layout_passed_over(
                        vault_puzzle_hash,
                        launcher_id@,
                        #[trigger] layouts@[j],
                        timelock_candidates@,
                        full_puzzle_hash,
                    );
            law_hinted_config_is_sound(config, launcher_id@, layouts@[k], timelock_candidates@);
        }
    }
    r
}

/// Public layout from a CHIP-0043 memo whose singleton puzzle matches
/// `full_puzzle_hash`.
///
/// The spend's puzzle reveal and solution are read as serialized programs and
/// handed to [`hinted_config_from_programs`]. `vault_puzzle_hash` computes the
/// full singleton puzzle hash of the vault that a config describes, or nothing
/// when the config has no vault keys.
pub fn hinted_config_from_spend<F>(
    spend: &CoinSpend,
    launcher_id: [u8; 32],
    full_puzzle_hash: [u8; 32],
    timelock_candidates: &[u64],
    vault_puzzle_hash: F,
) -> (r: Option<VaultConfig>) where F: Fn(&VaultConfig) -> Option<[u8; 32]>
    requires
        forall|config: &VaultConfig| #[trigger] vault_puzzle_hash.requires((config,)),
    ensures
        exists|puzzle: Seq<u8>, solution: Seq<u8>|
            #[trigger] is_spend_hint(
                vault_puzzle_hash,
                r,
                puzzle,
                solution,
                launcher_id@,
                timelock_candidates@,
                full_puzzle_hash,
            ),
        r matches Some(config) ==> timelock_candidates@.contains(config.recovery.clawback_timelock)
            && puzzle_hash_matches(vault_puzzle_hash, config, full_puzzle_hash),
{
    let puzzle = spend_puzzle_bytes(spend);
    let solution = spend_solution_bytes(spend);
    hinted_config_from_programs(
        puzzle.as_slice(),
        solution.as_slice(),
        launcher_id,
        full_puzzle_hash,
        timelock_candidates,
        vault_puzzle_hash,
    )
}

/// A config that a layout hints for a launcher: its launcher id is `0x` and
/// the launcher's lowercase hex, which spells the launcher back; its clawback
/// timelock is one of the candidates; and both sides have a threshold of at
/// least one and at least one member.
pub proof fn law_hinted_config_is_sound(
    config: VaultConfig,
    launcher_id: Seq<u8>,
    layout: MemoLayout,
    candidates: Seq<u64>,
)
    requires
        hinted_layout(layout, candidates) is Some,
        is_config_for(config, launcher_id, hinted_layout(layout, candidates)->0),
    ensures
        config.launcher_id@ == "0x"@ + hex_lower(launcher_id),
        candidates.contains(config.recovery.clawback_timelock),
        config.custody.threshold >= 1,
        config.recovery.threshold >= 1,
        config.custody.keys@.len() > 0 || config.custody.vaults@.len() > 0,
        config.recovery.keys@.len() > 0 || config.recovery.vaults@.len() > 0,
        hex_decode(config.launcher_id@.subrange(2, config.launcher_id@.len() as int)) == launcher_id,
{
    law_hinted_timelock_is_a_candidate(layout, candidates);
    law_hex_lower_spells_the_bytes(launcher_id);
    reveal_strlit("0x");
    assert(config.launcher_id@.subrange(2, config.launcher_id@.len() as int) =~= hex_lower(launcher_id));
}

} // verus!
