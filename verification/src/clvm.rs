//! CLVM programs and the CHIP-0043 memos read from them.
//!
//! Programs are read from their serialized bytes, one after another, into one
//! allocator (`Programs`). Every value drawn from them (a `Node`, a `Memo`,
//! and the parts of a memo) carries a reference to that allocator and, as
//! ghost state, where it sits: the bytes of the programs read up to and
//! including its own (the last), the path from that program's root to the
//! node (`false` for the first of a pair, `true` for the rest), and for the
//! parts of a memo the item indices from the memo's top inner puzzle down.
//! Only this module builds these values, so the outside calls below never
//! index an allocator with a node of another one, and what they return is
//! stated over those places.

use vstd::prelude::*;

use chia_protocol::{CoinSpend, Program};
use chia_sdk_driver::{
    Force1of2RestrictedVariableMemo, InnerPuzzleMemo, MemberMemo, MemoKind, MipsMemo,
    MipsMemoContext, ParsedMember, RestrictionMemo, WrapperMemo,
};
use clvm_traits::FromClvm;
use clvmr::serde::node_from_bytes;
use clvmr::{Allocator, NodePtr, ObjectType, SExp};

verus! {

// Outside types that pass through this module; Verus sees nothing inside them.
#[verifier::external_type_specification]
#[verifier::external_body]
pub struct ExAllocator(Allocator);

#[verifier::external_type_specification]
#[verifier::external_body]
pub struct ExNodePtr(NodePtr);

#[verifier::external_type_specification]
#[verifier::external_body]
#[verifier::reject_recursive_types(T)]
pub struct ExMipsMemo<T>(MipsMemo<T>);

#[verifier::external_type_specification]
#[verifier::external_body]
#[verifier::reject_recursive_types(T)]
pub struct ExInnerPuzzleMemo<T>(InnerPuzzleMemo<T>);

#[verifier::external_type_specification]
#[verifier::external_body]
#[verifier::reject_recursive_types(T)]
pub struct ExMemberMemo<T>(MemberMemo<T>);

#[verifier::external_type_specification]
#[verifier::external_body]
#[verifier::reject_recursive_types(T)]
pub struct ExRestrictionMemo<T>(RestrictionMemo<T>);

#[verifier::external_type_specification]
#[verifier::external_body]
pub struct ExParsedMember(ParsedMember);

#[verifier::external_type_specification]
#[verifier::external_body]
pub struct ExCoinSpend(CoinSpend);

#[verifier::external_type_specification]
#[verifier::external_body]
pub struct ExProgram(Program);

// ---------------------------------------------------------------------------
// Names for what the outside calls give, over the places where they look.
/// Whether `clvmr::serde::node_from_bytes` reads `bytes` as one whole
/// program into an `Allocator` that `Allocator::new` made and that then read
/// the programs `before`, in order.
pub uninterp spec fn clvm_reads(before: Seq<Seq<u8>>, bytes: Seq<u8>) -> bool;

/// Whether `Allocator::sexp` gives a pair for the node that `path` reaches in
/// the last program of `src`, read as `clvm_reads` says after the others.
pub uninterp spec fn clvm_is_pair(src: Seq<Seq<u8>>, path: Seq<bool>) -> bool;

/// What `NodePtr::index` gives for the node that `path` reaches in the last
/// program of `src`, read as `clvm_reads` says after the others.
pub uninterp spec fn clvm_node_index(src: Seq<Seq<u8>>, path: Seq<bool>) -> u32;

/// The bytes that `Allocator::atom` gives for the node that `path` reaches in
/// the last program of `src`, when its `object_type` is `ObjectType::Bytes`;
/// nothing otherwise.
pub uninterp spec fn clvm_byte_atom(src: Seq<Seq<u8>>, path: Seq<bool>) -> Option<Seq<u8>>;

/// Whether `MipsMemo::from_clvm_bounded` accepts the node that `path` reaches
/// in the last program of `src`.
pub uninterp spec fn mips_memo_parses(src: Seq<Seq<u8>>, path: Seq<bool>) -> bool;

/// The `kind` of the inner puzzle memo at `items` (item indices from the top
/// inner puzzle down) in the memo parsed at `memo`: nothing for
/// `MemoKind::Member`, the `required` count and the number of items for
/// `MemoKind::MofN`.
pub uninterp spec fn memo_kind(src: Seq<Seq<u8>>, memo: Seq<bool>, items: Seq<usize>) -> Option<(usize, nat)>;

/// The number of `restrictions` of the inner puzzle memo at `items` in the
/// memo parsed at `memo`.
pub uninterp spec fn memo_restriction_count(src: Seq<Seq<u8>>, memo: Seq<bool>, items: Seq<usize>) -> nat;

/// The number of wrappers that `Vec::<WrapperMemo>::from_clvm` reads from the
/// `memo` of restriction `restriction` of that inner puzzle memo, or nothing
/// when it fails.
pub uninterp spec fn memo_wrapper_count(
    src: Seq<Seq<u8>>,
    memo: Seq<bool>,
    items: Seq<usize>,
    restriction: int,
) -> Option<nat>;

/// The `member_validator_list_hash` of the `restriction()` of the
/// `Force1of2RestrictedVariableMemo` that `from_clvm` reads from the `memo` of
/// wrapper `wrapper` of that restriction, or nothing when it fails.
pub uninterp spec fn memo_force_list_hash(
    src: Seq<Seq<u8>>,
    memo: Seq<bool>,
    items: Seq<usize>,
    restriction: int,
    wrapper: int,
) -> Option<Seq<u8>>;

/// Whether `MemberMemo::parse`, with the default `MipsMemoContext`, parses the
/// member memo of the inner puzzle memo at `items`.
pub uninterp spec fn member_memo_parses(src: Seq<Seq<u8>>, memo: Seq<bool>, items: Seq<usize>) -> bool;

/// The BLS key (public or synthetic) of that parsed member, when it is one of
/// the four BLS kinds.
pub uninterp spec fn parsed_bls_of(src: Seq<Seq<u8>>, memo: Seq<bool>, items: Seq<usize>) -> Option<[u8; 48]>;

/// The public key of that parsed member, when it is a K1 member (plain or
/// puzzle-assert).
pub uninterp spec fn parsed_k1_of(src: Seq<Seq<u8>>, memo: Seq<bool>, items: Seq<usize>) -> Option<[u8; 33]>;

/// The public key of that parsed member, when it is an R1 member (plain or
/// puzzle-assert).
pub uninterp spec fn parsed_r1_of(src: Seq<Seq<u8>>, memo: Seq<bool>, items: Seq<usize>) -> Option<[u8; 33]>;

/// The public key of that parsed member, when it is a passkey member (plain or
/// puzzle-assert).
pub uninterp spec fn parsed_passkey_of(src: Seq<Seq<u8>>, memo: Seq<bool>, items: Seq<usize>) -> Option<[u8; 33]>;

/// The launcher id of that parsed member, when it is a singleton member (with
/// or without mode).
pub uninterp spec fn parsed_singleton_of(src: Seq<Seq<u8>>, memo: Seq<bool>, items: Seq<usize>) -> Option<
    [u8; 32],
>;

// ---------------------------------------------------------------------------
// The library's handles.
/// Programs read from their serialized bytes, in order, into one allocator:
/// the allocator and the root node of each.
pub struct Programs {
    alloc: Allocator,
    roots: Vec<NodePtr>,
    srcs: Ghost<Seq<Seq<u8>>>,
}

/// A node of a program read into `Programs`.
pub struct Node<'a> {
    alloc: &'a Allocator,
    ptr: NodePtr,
    src: Ghost<Seq<Seq<u8>>>,
    path: Ghost<Seq<bool>>,
}

/// A CHIP-0043 memo parsed from a node of a program.
pub struct Memo<'a> {
    alloc: &'a Allocator,
    memo: MipsMemo,
    src: Ghost<Seq<Seq<u8>>>,
    path: Ghost<Seq<bool>>,
}

/// An inner puzzle memo within a `Memo`.
pub struct Inner<'a> {
    alloc: &'a Allocator,
    inner: &'a InnerPuzzleMemo,
    place: Ghost<(Seq<Seq<u8>>, Seq<bool>, Seq<usize>)>,
}

/// The items of an M-of-N inner puzzle memo.
pub struct Items<'a> {
    alloc: &'a Allocator,
    items: &'a Vec<InnerPuzzleMemo>,
    place: Ghost<(Seq<Seq<u8>>, Seq<bool>, Seq<usize>)>,
}

/// The restrictions of an inner puzzle memo.
pub struct Restrictions<'a> {
    alloc: &'a Allocator,
    list: &'a Vec<RestrictionMemo>,
    place: Ghost<(Seq<Seq<u8>>, Seq<bool>, Seq<usize>)>,
}

/// One restriction memo, by its index among its inner puzzle's restrictions.
pub struct Restriction<'a> {
    alloc: &'a Allocator,
    restriction: &'a RestrictionMemo,
    place: Ghost<(Seq<Seq<u8>>, Seq<bool>, Seq<usize>)>,
    index: Ghost<int>,
}

/// The memo of one wrapper of a restriction.
struct WrapperNode<'a> {
    alloc: &'a Allocator,
    ptr: NodePtr,
    place: Ghost<(Seq<Seq<u8>>, Seq<bool>, Seq<usize>)>,
    restriction: Ghost<int>,
    index: Ghost<int>,
}

/// The member memo of an inner puzzle memo.
pub struct Member<'a> {
    alloc: &'a Allocator,
    member: &'a MemberMemo,
    place: Ghost<(Seq<Seq<u8>>, Seq<bool>, Seq<usize>)>,
}

/// A parsed member memo.
struct ParsedAt {
    parsed: ParsedMember,
    place: Ghost<(Seq<Seq<u8>>, Seq<bool>, Seq<usize>)>,
}

/// The two kinds of inner puzzle memo, with their fields.
pub enum InnerKind<'a> {
    Member(Member<'a>),
    MofN(usize, Items<'a>),
}

/// The fields of a `MemoKind`, by variant.
enum RawKind<'a> {
    Member(&'a MemberMemo),
    MofN(usize, &'a Vec<InnerPuzzleMemo>),
}

// ---------------------------------------------------------------------------
// Calls into `clvmr`, `chia_protocol` and `chia_sdk_driver`.
/// Calls `Allocator::new`.
#[verifier::external_body]
fn new_allocator() -> Allocator {
    Allocator::new()
}

/// Calls `clvmr::serde::node_from_bytes` on the programs' allocator, which
/// has read the programs `srcs` and nothing else. Only the allocator changes.
#[verifier::external_body]
fn read_program(programs: &mut Programs, bytes: &[u8]) -> (r: Option<NodePtr>)
    ensures
        r is Some <==> clvm_reads(old(programs).srcs@, bytes@),
        final(programs).srcs == old(programs).srcs,
        final(programs).roots == old(programs).roots,
{
    node_from_bytes(&mut programs.alloc, bytes).ok()
}

/// The serialized bytes of the `puzzle_reveal` field of a `CoinSpend`
/// (`Program::to_vec`).
#[verifier::external_body]
pub(crate) fn spend_puzzle_bytes(spend: &CoinSpend) -> Vec<u8> {
    spend.puzzle_reveal.to_vec()
}

/// The serialized bytes of the `solution` field of a `CoinSpend`
/// (`Program::to_vec`).
#[verifier::external_body]
pub(crate) fn spend_solution_bytes(spend: &CoinSpend) -> Vec<u8> {
    spend.solution.to_vec()
}

/// Calls `Allocator::sexp`: the two halves of a pair, or nothing for an atom.
#[verifier::external_body]
fn node_pair(node: &Node) -> (r: Option<(NodePtr, NodePtr)>)
    ensures
        r is Some <==> clvm_is_pair(node.src@, node.path@),
{
    match node.alloc.sexp(node.ptr) {
        SExp::Pair(first, rest) => Some((first, rest)),
        SExp::Atom => None,
    }
}

/// Calls `NodePtr::index`.
#[verifier::external_body]
fn node_index(node: &Node) -> (r: u32)
    ensures
        r == clvm_node_index(node.src@, node.path@),
{
    node.ptr.index()
}

/// For a node whose `object_type` is `ObjectType::Bytes`, the bytes that
/// `Allocator::atom` gives for it; nothing for any other node.
#[verifier::external_body]
fn bytes_atom(node: &Node) -> (r: Option<Vec<u8>>)
    ensures
        match r {
            Some(b) => clvm_byte_atom(node.src@, node.path@) == Some(b@),
            None => clvm_byte_atom(node.src@, node.path@) is None,
        },
{
    if node.ptr.object_type() == ObjectType::Bytes {
        Some(node.alloc.atom(node.ptr).as_ref().to_vec())
    } else {
        None
    }
}

/// Calls `MipsMemo::from_clvm_bounded`, the parse meant for untrusted input:
/// it refuses memos nested deeper than `MAX_MIPS_MEMO_DEPTH`, larger than
/// `MAX_MIPS_MEMO_NODES`, or whose `try_inner_puzzle_hash` fails.
#[verifier::external_body]
fn parse_mips_memo(node: &Node) -> (r: Option<MipsMemo>)
    ensures
        r is Some <==> mips_memo_parses(node.src@, node.path@),
{
    MipsMemo::from_clvm_bounded(node.alloc, node.ptr).ok()
}

/// The `inner_puzzle` field of a `MipsMemo`.
#[verifier::external_body]
fn memo_inner_puzzle(memo: &MipsMemo) -> &InnerPuzzleMemo {
    &memo.inner_puzzle
}

/// The `kind` field of an `InnerPuzzleMemo`, by its `MemoKind` variant.
#[verifier::external_body]
fn inner_puzzle_kind<'a>(inner: &Inner<'a>) -> (r: RawKind<'a>)
    ensures
        r is Member <==> memo_kind(inner.place@.0, inner.place@.1, inner.place@.2) is None,
        r matches RawKind::MofN(required, items) ==> memo_kind(
            inner.place@.0,
            inner.place@.1,
            inner.place@.2,
        ) == Some((required, items@.len())),
{
    match &inner.inner.kind {
        MemoKind::Member(member) => RawKind::Member(member),
        MemoKind::MofN(m_of_n) => RawKind::MofN(m_of_n.required, &m_of_n.items),
    }
}

/// The `restrictions` field of an `InnerPuzzleMemo`.
#[verifier::external_body]
fn inner_puzzle_restrictions<'a>(inner: &Inner<'a>) -> (r: &'a Vec<RestrictionMemo>)
    ensures
        r@.len() == memo_restriction_count(inner.place@.0, inner.place@.1, inner.place@.2),
{
    &inner.inner.restrictions
}

/// Calls `Vec::<WrapperMemo>::from_clvm` on a restriction's memo (the list
/// that `RestrictionMemo::enforce_delegated_puzzle_wrappers` stores) and
/// returns the `memo` field of each wrapper, in order.
#[verifier::external_body]
fn restriction_wrapper_memos(restriction: &Restriction) -> (r: Option<Vec<NodePtr>>)
    ensures
        r is Some <==> memo_wrapper_count(
            restriction.place@.0,
            restriction.place@.1,
            restriction.place@.2,
            restriction.index@,
        ) is Some,
        r matches Some(v) ==> memo_wrapper_count(
            restriction.place@.0,
            restriction.place@.1,
            restriction.place@.2,
            restriction.index@,
        ) == Some(v@.len()),
{
    Vec::<WrapperMemo>::from_clvm(restriction.alloc, restriction.restriction.memo).ok().map(
        |wrappers| wrappers.into_iter().map(|wrapper| wrapper.memo).collect(),
    )
}

/// Calls `Force1of2RestrictedVariableMemo::from_clvm` on a wrapper memo and,
/// when it parses, returns the `member_validator_list_hash` of its
/// `restriction()`.
#[verifier::external_body]
fn force_member_validator_list_hash(node: &WrapperNode) -> (r: Option<[u8; 32]>)
    ensures
        match r {
            Some(h) => memo_force_list_hash(
                node.place@.0,
                node.place@.1,
                node.place@.2,
                node.restriction@,
                node.index@,
            ) == Some(h@),
            None => memo_force_list_hash(
                node.place@.0,
                node.place@.1,
                node.place@.2,
                node.restriction@,
                node.index@,
            ) is None,
        },
{
    Force1of2RestrictedVariableMemo::from_clvm(node.alloc, node.ptr).ok().map(
        |memo| memo.restriction().member_validator_list_hash.to_bytes(),
    )
}

/// Calls `MemberMemo::parse` with the default `MipsMemoContext`.
#[verifier::external_body]
fn parse_member_memo(member: &Member) -> (r: Option<ParsedMember>)
    ensures
        r is Some <==> member_memo_parses(member.place@.0, member.place@.1, member.place@.2),
{
    member.member.parse(member.alloc, &MipsMemoContext::default())
}

/// The BLS key of a parsed BLS member (plain, puzzle-assert, taproot or
/// taproot puzzle-assert), as bytes.
#[verifier::external_body]
fn parsed_bls_key(parsed: &ParsedAt) -> (r: Option<[u8; 48]>)
    ensures
        r == parsed_bls_of(parsed.place@.0, parsed.place@.1, parsed.place@.2),
{
    match &parsed.parsed {
        ParsedMember::Bls(m) => Some(m.public_key.to_bytes()),
        ParsedMember::BlsPuzzleAssert(m) => Some(m.public_key.to_bytes()),
        ParsedMember::BlsTaproot(m) => Some(m.synthetic_key.to_bytes()),
        ParsedMember::BlsTaprootPuzzleAssert(m) => Some(m.synthetic_key.to_bytes()),
        _ => None,
    }
}

/// The secp256k1 key of a parsed K1 member (plain or puzzle-assert), as bytes.
#[verifier::external_body]
fn parsed_k1_key(parsed: &ParsedAt) -> (r: Option<[u8; 33]>)
    ensures
        r == parsed_k1_of(parsed.place@.0, parsed.place@.1, parsed.place@.2),
{
    match &parsed.parsed {
        ParsedMember::K1(m) => Some(m.public_key.to_bytes()),
        ParsedMember::K1PuzzleAssert(m) => Some(m.public_key.to_bytes()),
        _ => None,
    }
}

/// The secp256r1 key of a parsed R1 member (plain or puzzle-assert), as bytes.
#[verifier::external_body]
fn parsed_r1_key(parsed: &ParsedAt) -> (r: Option<[u8; 33]>)
    ensures
        r == parsed_r1_of(parsed.place@.0, parsed.place@.1, parsed.place@.2),
{
    match &parsed.parsed {
        ParsedMember::R1(m) => Some(m.public_key.to_bytes()),
        ParsedMember::R1PuzzleAssert(m) => Some(m.public_key.to_bytes()),
        _ => None,
    }
}

/// The key of a parsed passkey member (plain or puzzle-assert), as bytes.
#[verifier::external_body]
fn parsed_passkey_key(parsed: &ParsedAt) -> (r: Option<[u8; 33]>)
    ensures
        r == parsed_passkey_of(parsed.place@.0, parsed.place@.1, parsed.place@.2),
{
    match &parsed.parsed {
        ParsedMember::Passkey(m) => Some(m.public_key.to_bytes()),
        ParsedMember::PasskeyPuzzleAssert(m) => Some(m.public_key.to_bytes()),
        _ => None,
    }
}

/// The launcher id of a parsed singleton member (with or without mode).
#[verifier::external_body]
fn parsed_singleton_launcher(parsed: &ParsedAt) -> (r: Option<[u8; 32]>)
    ensures
        r == parsed_singleton_of(parsed.place@.0, parsed.place@.1, parsed.place@.2),
{
    match &parsed.parsed {
        ParsedMember::Singleton(m) => Some(m.singleton_struct.launcher_id.to_bytes()),
        ParsedMember::SingletonWithMode(m) => Some(m.singleton_struct.launcher_id.to_bytes()),
        _ => None,
    }
}

// ---------------------------------------------------------------------------
// What the handles give, stated over the names above.
/// The list hashes that a restriction's wrappers commit to: nothing when its
/// memo is not a list of wrappers, otherwise one entry per wrapper, in order.
pub open spec fn restriction_reads(
    r: Option<Vec<Option<[u8; 32]>>>,
    src: Seq<Seq<u8>>,
    memo: Seq<bool>,
    items: Seq<usize>,
    restriction: int,
) -> bool {
    match memo_wrapper_count(src, memo, items, restriction) {
        None => r is None,
        Some(n) => r matches Some(hashes) && hashes@.len() == n && forall|w: int|
            0 <= w < n ==> match #[trigger] hashes@[w] {
                Some(h) => memo_force_list_hash(src, memo, items, restriction, w) == Some(h@),
                None => memo_force_list_hash(src, memo, items, restriction, w) is None,
            },
    }
}

impl Programs {
    /// The bytes of the programs read so far, in order.
    pub closed spec fn srcs(&self) -> Seq<Seq<u8>> {
        self.srcs@
    }

    /// Each program read has its root.
    pub closed spec fn wf(&self) -> bool {
        self.roots@.len() == self.srcs@.len()
    }

    /// No program read yet.
    pub fn new() -> (r: Programs)
        ensures
            r.wf(),
            r.srcs() == Seq::<Seq<u8>>::empty(),
    {
        Programs { alloc: new_allocator(), roots: Vec::new(), srcs: Ghost(Seq::empty()) }
    }

    /// Deserializes one more program; nothing when the bytes are not one
    /// whole serialized program (the partly filled allocator is dropped).
    pub fn read(self, bytes: &[u8]) -> (r: Option<Programs>)
        requires
            self.wf(),
        ensures
            r is Some <==> clvm_reads(self.srcs(), bytes@),
            r matches Some(p) ==> p.wf() && p.srcs() == self.srcs().push(bytes@),
    {
        let mut programs = self;
        match read_program(&mut programs, bytes) {
            Some(root) => {
                let Programs { alloc, mut roots, srcs } = programs;
                roots.push(root);
                Some(Programs { alloc, roots, srcs: Ghost(srcs@.push(bytes@)) })
            },
            None => None,
        }
    }

    /// The root node of program `i`.
    pub fn root(&self, i: usize) -> (r: Node<'_>)
        requires
            self.wf(),
            i < self.srcs().len(),
        ensures
            r.src() == self.srcs().subrange(0, i + 1),
            r.path() == Seq::<bool>::empty(),
    {
        Node {
            alloc: &self.alloc,
            ptr: self.roots[i],
            src: Ghost(self.srcs@.subrange(0, i + 1)),
            path: Ghost(Seq::empty()),
        }
    }
}

impl<'a> Node<'a> {
    /// The bytes of the program the node belongs to.
    pub closed spec fn src(&self) -> Seq<Seq<u8>> {
        self.src@
    }

    /// The path from the program's root to the node.
    pub closed spec fn path(&self) -> Seq<bool> {
        self.path@
    }

    /// The first and rest of a pair node; nothing for an atom.
    pub(crate) fn pair(&self) -> (r: Option<(Node<'a>, Node<'a>)>)
        ensures
            r is Some <==> clvm_is_pair(self.src(), self.path()),
            r matches Some((first, rest)) ==> first.src() == self.src() && rest.src() == self.src()
                && first.path() == self.path().push(false) && rest.path() == self.path().push(
                true,
            ),
    {
        match node_pair(self) {
            Some((first, rest)) => Some(
                (
                    Node {
                        alloc: self.alloc,
                        ptr: first,
                        src: self.src,
                        path: Ghost(self.path@.push(false)),
                    },
                    Node {
                        alloc: self.alloc,
                        ptr: rest,
                        src: self.src,
                        path: Ghost(self.path@.push(true)),
                    },
                ),
            ),
            None => None,
        }
    }

    /// The node's index in its allocator.
    pub(crate) fn index(&self) -> (r: u32)
        ensures
            r == clvm_node_index(self.src(), self.path()),
    {
        node_index(self)
    }

    /// The bytes of a byte atom; nothing for a pair or a small number atom.
    pub(crate) fn byte_atom(&self) -> (r: Option<Vec<u8>>)
        ensures
            match r {
                Some(b) => clvm_byte_atom(self.src(), self.path()) == Some(b@),
                None => clvm_byte_atom(self.src(), self.path()) is None,
            },
    {
        bytes_atom(self)
    }

    /// The node read as a CHIP-0043 memo, when it parses as one.
    pub fn memo(&self) -> (r: Option<Memo<'a>>)
        ensures
            r is Some <==> mips_memo_parses(self.src(), self.path()),
            r matches Some(m) ==> m.src() == self.src() && m.path() == self.path(),
    {
        match parse_mips_memo(self) {
            Some(memo) => Some(Memo { alloc: self.alloc, memo, src: self.src, path: self.path }),
            None => None,
        }
    }
}

impl<'a> Memo<'a> {
    /// The bytes of the program the memo was parsed from.
    pub closed spec fn src(&self) -> Seq<Seq<u8>> {
        self.src@
    }

    /// The path to the node the memo was parsed from.
    pub closed spec fn path(&self) -> Seq<bool> {
        self.path@
    }

    /// The memo's top inner puzzle.
    pub(crate) fn inner(&self) -> (r: Inner<'_>)
        ensures
            r.place() == (self.src(), self.path(), Seq::<usize>::empty()),
    {
        Inner {
            alloc: self.alloc,
            inner: memo_inner_puzzle(&self.memo),
            place: Ghost((self.src@, self.path@, Seq::empty())),
        }
    }
}

impl<'a> Inner<'a> {
    /// Where the inner puzzle memo sits.
    pub closed spec fn place(&self) -> (Seq<Seq<u8>>, Seq<bool>, Seq<usize>) {
        self.place@
    }

    /// What the inner puzzle is: one member, or an M-of-N of items.
    pub(crate) fn kind(&self) -> (r: InnerKind<'a>)
        ensures
            match r {
                InnerKind::Member(m) => memo_kind(self.place().0, self.place().1, self.place().2)
                    is None && m.place() == self.place(),
                InnerKind::MofN(required, items) => memo_kind(
                    self.place().0,
                    self.place().1,
                    self.place().2,
                ) == Some((required, items.count())) && items.place() == self.place(),
            },
    {
        match inner_puzzle_kind(self) {
            RawKind::Member(member) => InnerKind::Member(
                Member { alloc: self.alloc, member, place: self.place },
            ),
            RawKind::MofN(required, items) => InnerKind::MofN(
                required,
                Items { alloc: self.alloc, items, place: self.place },
            ),
        }
    }

    /// The restrictions on the inner puzzle.
    pub(crate) fn restrictions(&self) -> (r: Restrictions<'a>)
        ensures
            r.place() == self.place(),
            r.count() == memo_restriction_count(self.place().0, self.place().1, self.place().2),
    {
        Restrictions { alloc: self.alloc, list: inner_puzzle_restrictions(self), place: self.place }
    }
}

impl<'a> Items<'a> {
    /// Where the M-of-N inner puzzle memo sits.
    pub closed spec fn place(&self) -> (Seq<Seq<u8>>, Seq<bool>, Seq<usize>) {
        self.place@
    }

    /// How many items there are.
    pub closed spec fn count(&self) -> nat {
        self.items@.len()
    }

    /// How many items there are.
    pub(crate) fn len(&self) -> (r: usize)
        ensures
            r == self.count(),
    {
        self.items.len()
    }

    /// The item at `i`.
    pub(crate) fn get(&self, i: usize) -> (r: Inner<'a>)
        requires
            i < self.count(),
        ensures
            r.place() == (self.place().0, self.place().1, self.place().2.push(i)),
    {
        Inner {
            alloc: self.alloc,
            inner: &self.items[i],
            place: Ghost((self.place@.0, self.place@.1, self.place@.2.push(i))),
        }
    }
}

impl<'a> Restrictions<'a> {
    /// Where the inner puzzle memo of these restrictions sits.
    pub closed spec fn place(&self) -> (Seq<Seq<u8>>, Seq<bool>, Seq<usize>) {
        self.place@
    }

    /// How many restrictions there are.
    pub closed spec fn count(&self) -> nat {
        self.list@.len()
    }

    /// How many restrictions there are.
    pub(crate) fn len(&self) -> (r: usize)
        ensures
            r == self.count(),
    {
        self.list.len()
    }

    /// The restriction at `i`.
    pub(crate) fn get(&self, i: usize) -> (r: Restriction<'a>)
        requires
            i < self.count(),
        ensures
            r.place() == self.place(),
            r.index() == i,
    {
        Restriction {
            alloc: self.alloc,
            restriction: &self.list[i],
            place: self.place,
            index: Ghost(i as int),
        }
    }
}

impl<'a> Restriction<'a> {
    /// Where the inner puzzle memo of this restriction sits.
    pub closed spec fn place(&self) -> (Seq<Seq<u8>>, Seq<bool>, Seq<usize>) {
        self.place@
    }

    /// The restriction's index among its inner puzzle's restrictions.
    pub closed spec fn index(&self) -> int {
        self.index@
    }

    /// The member-validator list hash that each wrapper of the restriction
    /// commits to as a force-1-of-2 restriction, in order; nothing when its
    /// memo is not a list of wrappers.
    pub(crate) fn list_hashes(&self) -> (r: Option<Vec<Option<[u8; 32]>>>)
        ensures
            restriction_reads(r, self.place().0, self.place().1, self.place().2, self.index()),
    {
        let memos = match restriction_wrapper_memos(self) {
            Some(memos) => memos,
            None => {
                return None;
            },
        };
        let mut hashes: Vec<Option<[u8; 32]>> = Vec::new();
        let n = memos.len();
        let mut i: usize = 0;
        while i < n
            invariant
                i <= n,
                n == memos@.len(),
                hashes@.len() == i,
                forall|w: int|
                    0 <= w < i ==> match #[trigger] hashes@[w] {
                        Some(h) => memo_force_list_hash(
                            self.place@.0,
                            self.place@.1,
                            self.place@.2,
                            self.index@,
                            w,
                        ) == Some(h@),
                        None => memo_force_list_hash(
                            self.place@.0,
                            self.place@.1,
                            self.place@.2,
                            self.index@,
                            w,
                        ) is None,
                    },
            decreases n - i,
        {
            let node = WrapperNode {
                alloc: self.alloc,
                ptr: memos[i],
                place: self.place,
                restriction: self.index,
                index: Ghost(i as int),
            };
            hashes.push(force_member_validator_list_hash(&node));
            i = i + 1;
        }
        Some(hashes)
    }
}

impl<'a> Member<'a> {
    /// Where the inner puzzle memo of this member sits.
    pub closed spec fn place(&self) -> (Seq<Seq<u8>>, Seq<bool>, Seq<usize>) {
        self.place@
    }

    /// The member memo parsed with the default context, read as the key or
    /// launcher id that each kind of member yields; nothing when it does not
    /// parse.
    pub(crate) fn parsed(&self) -> (r: Option<
        (Option<[u8; 48]>, Option<[u8; 33]>, Option<[u8; 33]>, Option<[u8; 33]>, Option<[u8; 32]>),
    >)
        ensures
            r is Some <==> member_memo_parses(self.place().0, self.place().1, self.place().2),
            r matches Some((bls, k1, r1, passkey, singleton)) ==> {
                let (b, m, i) = self.place();
                &&& bls == parsed_bls_of(b, m, i)
                &&& k1 == parsed_k1_of(b, m, i)
                &&& r1 == parsed_r1_of(b, m, i)
                &&& passkey == parsed_passkey_of(b, m, i)
                &&& singleton == parsed_singleton_of(b, m, i)
            },
    {
        match parse_member_memo(self) {
            Some(parsed) => {
                let at = ParsedAt { parsed, place: self.place };
                Some(
                    (
                        parsed_bls_key(&at),
                        parsed_k1_key(&at),
                        parsed_r1_key(&at),
                        parsed_passkey_key(&at),
                        parsed_singleton_launcher(&at),
                    ),
                )
            },
            None => None,
        }
    }
}

} // verus!
