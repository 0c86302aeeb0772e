//! The bootstrap pipeline: the per-block validation state machine, the
//! sequential fold that consumes a pulled block stream, and the final
//! tip-selection step. Network transport (connecting to the peer, awaiting
//! readiness, issuing the pull request, receiving stream items) lives with
//! the caller; this module holds every decision the pipeline makes about the
//! blocks it is handed.

use vstd::prelude::*;

verus! {

use crate::chain::{date_lt, Block, HeaderHash, Ref};
use crate::store::{
    child_ref,
    contains_hash,
    has_ref,
    lemma_lookup,
    lemma_push_wf,
    lookup,
    store_wf,
    ChainStore,
    PreCheckedHeader,
    StoreError,
};
use crate::tip::{select_new_tip, select_spec, Tip};

/// Everything that can abort a bootstrap attempt, surfaced unretried to the
/// caller. The two block-identifying kinds name the offending block's hash.
#[derive(Clone, Copy, PartialEq, Eq, Debug, Structural)]
pub enum Error {
    /// The execution environment could not be prepared.
    RuntimeInit,
    /// Transport-level failure opening the session.
    Connect,
    /// The session failed to reach a usable state.
    ClientNotReady,
    /// The peer rejected or could not service the block-pull request.
    PullRequestFailed,
    /// The accepted pull stream failed mid-way.
    PullStreamFailed,
    /// Pre-check or post-check reported a validation fault.
    HeaderCheckFailed { source: StoreError },
    /// The peer resent a block already known locally: the stream did not
    /// start where expected, fatal to this attempt.
    BlockAlreadyPresent(HeaderHash),
    /// A block could not be linked to a known parent: a stream gap, fatal.
    BlockMissingParent(HeaderHash),
    /// Storing a validated block failed.
    ApplyBlockFailed,
    /// The final tip comparison or swap failed.
    ChainSelectionFailed,
}

/// One step of the bootstrap fold on the arena `s`: the state machine
/// `received → pre-checked → post-checked → applied` for a single block.
/// A hash already present or a missing parent is fatal; a chronology fault
/// surfaces as a wrapped header-check failure; otherwise the block's new
/// reference is appended and returned.
pub open spec fn step_spec(s: Seq<Ref>, b: Block) -> (Seq<Ref>, Result<Ref, Error>) {
    let h = b.header;
    if contains_hash(s, h.hash) {
        (s, Err(Error::BlockAlreadyPresent(h.hash)))
    } else if !contains_hash(s, h.parent) {
        (s, Err(Error::BlockMissingParent(h.hash)))
    } else if !date_lt(lookup(s, h.parent).date, h.date) {
        (s, Err(Error::HeaderCheckFailed { source: StoreError::NonIncreasingDate }))
    } else {
        let r = child_ref(lookup(s, h.parent), h);
        (s.push(r), Ok(r))
    }
}

/// Validates one block against the stored chain and, if it passes, applies
/// it: exactly one step of the bootstrap fold. On any failure the store is
/// left untouched.
pub fn handle_block(store: &mut ChainStore, block: &Block) -> (r: Result<Ref, Error>)
    requires
        old(store).wf(),
    ensures
        final(store).wf(),
        final(store)@ == step_spec(old(store)@, *block).0,
        r == step_spec(old(store)@, *block).1,
        final(store).block0_spec() == old(store).block0_spec(),
{
    let header = block.header();
    let pre_checked = store.pre_check_header(header, true);
    match pre_checked {
        PreCheckedHeader::AlreadyPresent { header } => Err(Error::BlockAlreadyPresent(header.hash)),
        PreCheckedHeader::MissingParent { header } => Err(Error::BlockMissingParent(header.hash)),
        PreCheckedHeader::HeaderWithCache { header, parent_ref } => {
            proof {
                lemma_lookup(store@, header.parent);
            }
            match store.post_check_header(header, parent_ref) {
                Err(source) => Err(Error::HeaderCheckFailed { source }),
                Ok(post_checked) => Ok(store.apply_and_store_block(post_checked, block)),
            }
        },
    }
}

/// The sequential fold that consumes a pulled stream: blocks equal to the
/// genesis anchor are filtered out; every other block goes through one
/// `step_spec` in arrival order; the first failure aborts the fold with the
/// arena exactly as the successful prefix left it; exhaustion yields the last
/// applied reference, or the seed if nothing was applied.
pub open spec fn fold_spec(s: Seq<Ref>, block0: HeaderHash, current: Ref, blocks: Seq<Block>) -> (
    Seq<Ref>,
    Result<Ref, Error>,
)
    decreases blocks.len(),
{
    if blocks.len() == 0 {
        (s, Ok(current))
    } else if blocks[0].header.hash == block0 {
        fold_spec(s, block0, current, blocks.drop_first())
    } else {
        let st = step_spec(s, blocks[0]);
        match st.1 {
            Ok(r) => fold_spec(st.0, block0, r, blocks.drop_first()),
            Err(e) => (s, Err(e)),
        }
    }
}

/// Consumes a complete pulled stream, delivered in arrival order, seeded with
/// the local starting reference: the executable form of `fold_spec`.
#[verifier::loop_isolation(false)]
pub fn bootstrap_from_stream(store: &mut ChainStore, tip: Ref, blocks: &Vec<Block>) -> (r: Result<
    Ref,
    Error,
>)
    requires
        old(store).wf(),
    ensures
        final(store).wf(),
        final(store)@ == fold_spec(old(store)@, old(store).block0_spec(), tip, blocks@).0,
        r == fold_spec(old(store)@, old(store).block0_spec(), tip, blocks@).1,
        final(store).block0_spec() == old(store).block0_spec(),
{
    let ghost s0 = store@;
    let ghost b0 = old(store).block0_spec();
    let block0 = store.block0();
    let n = blocks.len();
    let mut current = tip;
    let mut i: usize = 0;
    proof {
        assert(blocks@.skip(0) =~= blocks@);
    }
    while i < n
        invariant
            n == blocks@.len(),
            0 <= i <= n,
            store.wf(),
            store.block0_spec() == b0,
            block0 == b0,
            fold_spec(s0, b0, tip, blocks@) == fold_spec(store@, b0, current, blocks@.skip(
                i as int,
            )),
        decreases n - i,
    {
        let ghost pre = store@;
        let ghost rest = blocks@.skip(i as int);
        proof {
            assert(rest[0] == blocks@[i as int]);
            assert(rest.drop_first() =~= blocks@.skip(i as int + 1));
        }
        let block = &blocks[i];
        if block.header.hash.value == block0.value {
            i = i + 1;
        } else {
            let stepped = handle_block(store, block);
            match stepped {
                Ok(r) => {
                    current = r;
                    i = i + 1;
                },
                Err(e) => {
                    proof {
                        assert(fold_spec(pre, b0, current, rest) == (
                            pre,
                            Err::<Ref, Error>(e),
                        ));
                    }
                    return Err(e);
                },
            }
        }
    }
    proof {
        assert(blocks@.skip(n as int) =~= Seq::<Block>::empty());
    }
    Ok(current)
}

/// One occurrence on a pull stream, as the transport hands it to the
/// consumer.
pub enum StreamEvent {
    /// The peer delivered the next block.
    Received(Block),
    /// The accepted stream failed mid-way (connection drop, peer-side
    /// abort).
    Failed,
    /// The stream ended without failure.
    Exhausted,
}

/// What consuming one stream event does to the arena and to the running
/// current reference: a delivered genesis duplicate is filtered out, any
/// other delivered block goes through one fold step, a transport failure
/// aborts, and exhaustion confirms the running reference.
pub open spec fn consume_event_spec(
    s: Seq<Ref>,
    block0: HeaderHash,
    current: Ref,
    event: StreamEvent,
) -> (Seq<Ref>, Result<Ref, Error>) {
    match event {
        StreamEvent::Received(b) => if b.header.hash == block0 {
            (s, Ok(current))
        } else {
            step_spec(s, b)
        },
        StreamEvent::Failed => (s, Err(Error::PullStreamFailed)),
        StreamEvent::Exhausted => (s, Ok(current)),
    }
}

/// Consumes one stream event: the step form of the fold, for a caller that
/// drives the stream item by item instead of delivering it whole. On `Ok`
/// the returned reference is the new running reference; on `Err` consumption
/// must halt permanently.
pub fn consume_event(store: &mut ChainStore, current: Ref, event: &StreamEvent) -> (r: Result<
    Ref,
    Error,
>)
    requires
        old(store).wf(),
    ensures
        final(store).wf(),
        final(store)@ == consume_event_spec(old(store)@, old(store).block0_spec(), current, *event).0,
        r == consume_event_spec(old(store)@, old(store).block0_spec(), current, *event).1,
        final(store).block0_spec() == old(store).block0_spec(),
{
    match event {
        StreamEvent::Received(b) => {
            let block0 = store.block0();
            if b.header.hash.value == block0.value {
                Ok(current)
            } else {
                handle_block(store, b)
            }
        },
        StreamEvent::Failed => Err(Error::PullStreamFailed),
        StreamEvent::Exhausted => Ok(current),
    }
}

/// `t` is `s` with zero or more references appended: the fold never removes
/// or rewrites what is already applied.
pub open spec fn extends(t: Seq<Ref>, s: Seq<Ref>) -> bool {
    s.len() <= t.len() && forall|i: int| 0 <= i < s.len() ==> t[i] == s[i]
}

/// The fold only appends to the arena, and a successful fold returns either
/// its seed or a reference present in the resulting arena.
pub proof fn lemma_fold_extends(s: Seq<Ref>, block0: HeaderHash, c: Ref, bs: Seq<Block>)
    ensures
        ({
            let f = fold_spec(s, block0, c, bs);
            &&& extends(f.0, s)
            &&& (f.1 matches Ok(r) ==> r == c || has_ref(f.0, r))
        }),
    decreases bs.len(),
{
    if bs.len() == 0 {
    } else if bs[0].header.hash == block0 {
        lemma_fold_extends(s, block0, c, bs.drop_first());
    } else {
        let st = step_spec(s, bs[0]);
        match st.1 {
            Ok(r) => {
                assert(st.0 == s.push(r));
                assert(st.0[s.len() as int] == r);
                lemma_fold_extends(st.0, block0, r, bs.drop_first());
                let f = fold_spec(s, block0, c, bs);
                assert(has_ref(f.0, r)) by {
                    let i = s.len() as int;
                    assert(f.0[i] == r);
                }
            },
            Err(_) => {},
        }
    }
}

/// The bootstrap core once the network has delivered a stream: read the
/// branch's current best reference as the local starting point, fold the
/// delivered blocks through validation and application, and on success offer
/// the resulting reference to chain selection against the branch tip. On any
/// failure the tip is left untouched; blocks applied before the failure
/// remain applied.
pub fn bootstrap_from_blocks(store: &mut ChainStore, branch: &mut Tip, blocks: &Vec<Block>) -> (r:
    Result<Ref, Error>)
    requires
        old(store).wf(),
        has_ref(old(store)@, old(branch)@),
    ensures
        final(store).wf(),
        final(store)@ == fold_spec(old(store)@, old(store).block0_spec(), old(branch)@, blocks@).0,
        r == fold_spec(old(store)@, old(store).block0_spec(), old(branch)@, blocks@).1,
        (match r {
            Ok(rf) => final(branch)@ == select_spec(old(branch)@, rf),
            Err(_) => final(branch)@ == old(branch)@,
        }),
        has_ref(final(store)@, final(branch)@),
{
    let seed = branch.get_ref();
    let res = bootstrap_from_stream(store, seed, blocks);
    proof {
        lemma_fold_extends(old(store)@, old(store).block0_spec(), seed, blocks@);
        let i = choose|i: int| 0 <= i < old(store)@.len() && old(store)@[i] == seed;
        assert(store@[i] == seed);
    }
    match res {
        Ok(rf) => {
            select_new_tip(store, branch, rf);
            Ok(rf)
        },
        Err(e) => Err(e),
    }
}

/// The fold consumes a stream strictly left to right: folding a
/// concatenation first folds the left part, and only a successful left fold
/// lets the right part be looked at; a failure on the left is the failure of
/// the whole, with the arena as the left fold left it.
pub proof fn lemma_fold_append(
    s: Seq<Ref>,
    block0: HeaderHash,
    c: Ref,
    xs: Seq<Block>,
    ys: Seq<Block>,
)
    ensures
        ({
            let fx = fold_spec(s, block0, c, xs);
            fold_spec(s, block0, c, xs + ys) == (match fx.1 {
                Ok(c1) => fold_spec(fx.0, block0, c1, ys),
                Err(_) => fx,
            })
        }),
    decreases xs.len(),
{
    let zs = xs + ys;
    if xs.len() == 0 {
        assert(zs =~= ys);
    } else {
        assert(zs[0] == xs[0]);
        assert(zs.drop_first() =~= xs.drop_first() + ys);
        if xs[0].header.hash == block0 {
            lemma_fold_append(s, block0, c, xs.drop_first(), ys);
        } else {
            let st = step_spec(s, xs[0]);
            match st.1 {
                Ok(r) => {
                    lemma_fold_append(st.0, block0, r, xs.drop_first(), ys);
                },
                Err(_) => {},
            }
        }
    }
}

/// Genesis idempotence: a stream that begins with a duplicate of the genesis
/// block folds to exactly the same arena and the same result as the same
/// stream with the leading duplicate removed.
pub proof fn lemma_genesis_duplicate_skipped(
    s: Seq<Ref>,
    block0: HeaderHash,
    c: Ref,
    g: Block,
    bs: Seq<Block>,
)
    requires
        g.header.hash == block0,
    ensures
        fold_spec(s, block0, c, seq![g] + bs) == fold_spec(s, block0, c, bs),
{
    let zs = seq![g] + bs;
    assert(zs[0] == g);
    assert(zs.drop_first() =~= bs);
}

/// Fatal classification: wherever a stream carries a block whose hash the
/// arena already holds once the blocks before it are folded, the fold aborts
/// there with `BlockAlreadyPresent` naming that hash, and no block after that
/// position is applied: the arena stays exactly as the prefix left it.
pub proof fn lemma_already_present_aborts(
    s: Seq<Ref>,
    block0: HeaderHash,
    c: Ref,
    c1: Ref,
    pre: Seq<Block>,
    b: Block,
    post: Seq<Block>,
)
    requires
        fold_spec(s, block0, c, pre).1 == Ok::<Ref, Error>(c1),
        b.header.hash != block0,
        contains_hash(fold_spec(s, block0, c, pre).0, b.header.hash),
    ensures
        fold_spec(s, block0, c, pre + seq![b] + post) == (
            fold_spec(s, block0, c, pre).0,
            Err::<Ref, Error>(Error::BlockAlreadyPresent(b.header.hash)),
        ),
{
    let tail = seq![b] + post;
    assert(pre + seq![b] + post =~= pre + tail);
    lemma_fold_append(s, block0, c, pre, tail);
    assert(tail[0] == b);
    assert(tail.drop_first() =~= post);
}

/// Gap detection: wherever a stream carries a block whose parent hash is
/// absent from the arena once the blocks before it are folded (and whose own
/// hash is new), the fold aborts there with `BlockMissingParent` naming that
/// block's hash, and no block after that position is applied.
pub proof fn lemma_missing_parent_aborts(
    s: Seq<Ref>,
    block0: HeaderHash,
    c: Ref,
    c1: Ref,
    pre: Seq<Block>,
    b: Block,
    post: Seq<Block>,
)
    requires
        fold_spec(s, block0, c, pre).1 == Ok::<Ref, Error>(c1),
        b.header.hash != block0,
        !contains_hash(fold_spec(s, block0, c, pre).0, b.header.hash),
        !contains_hash(fold_spec(s, block0, c, pre).0, b.header.parent),
    ensures
        fold_spec(s, block0, c, pre + seq![b] + post) == (
            fold_spec(s, block0, c, pre).0,
            Err::<Ref, Error>(Error::BlockMissingParent(b.header.hash)),
        ),
{
    let tail = seq![b] + post;
    assert(pre + seq![b] + post =~= pre + tail);
    lemma_fold_append(s, block0, c, pre, tail);
    assert(tail[0] == b);
    assert(tail.drop_first() =~= post);
}

/// Validation short-circuit: wherever a stream carries a linkable block whose
/// date does not strictly increase over its resolved parent's, the fold
/// aborts there with the wrapped header-check fault; blocks before it remain
/// applied and blocks after it are never attempted.
pub proof fn lemma_post_check_aborts(
    s: Seq<Ref>,
    block0: HeaderHash,
    c: Ref,
    c1: Ref,
    pre: Seq<Block>,
    b: Block,
    post: Seq<Block>,
)
    requires
        fold_spec(s, block0, c, pre).1 == Ok::<Ref, Error>(c1),
        b.header.hash != block0,
        !contains_hash(fold_spec(s, block0, c, pre).0, b.header.hash),
        contains_hash(fold_spec(s, block0, c, pre).0, b.header.parent),
        !date_lt(lookup(fold_spec(s, block0, c, pre).0, b.header.parent).date, b.header.date),
    ensures
        fold_spec(s, block0, c, pre + seq![b] + post) == (
            fold_spec(s, block0, c, pre).0,
            Err::<Ref, Error>(Error::HeaderCheckFailed { source: StoreError::NonIncreasingDate }),
        ),
{
    let tail = seq![b] + post;
    assert(pre + seq![b] + post =~= pre + tail);
    lemma_fold_append(s, block0, c, pre, tail);
    assert(tail[0] == b);
    assert(tail.drop_first() =~= post);
}

/// The header hashes of an arena, in application order.
pub open spec fn hashes_of(s: Seq<Ref>) -> Seq<HeaderHash> {
    s.map_values(|r: Ref| r.hash)
}

/// The header hashes of a stream after genesis filtering, in arrival order.
pub open spec fn filtered_hashes(bs: Seq<Block>, block0: HeaderHash) -> Seq<HeaderHash>
    decreases bs.len(),
{
    if bs.len() == 0 {
        Seq::empty()
    } else if bs[0].header.hash == block0 {
        filtered_hashes(bs.drop_first(), block0)
    } else {
        seq![bs[0].header.hash] + filtered_hashes(bs.drop_first(), block0)
    }
}

/// The stream `bs` is valid and properly linked on top of the arena `s` and
/// the running reference `c`: after genesis filtering, every block carries a
/// hash new to the arena built so far, declares the previous block (or the
/// seed) as its parent, and strictly advances the date.
pub open spec fn well_linked_from(s: Seq<Ref>, block0: HeaderHash, c: Ref, bs: Seq<Block>) -> bool
    decreases bs.len(),
{
    if bs.len() == 0 {
        true
    } else if bs[0].header.hash == block0 {
        well_linked_from(s, block0, c, bs.drop_first())
    } else {
        let h = bs[0].header;
        let r = child_ref(c, h);
        &&& !contains_hash(s, h.hash)
        &&& h.parent == c.hash
        &&& date_lt(c.date, h.date)
        &&& well_linked_from(s.push(r), block0, r, bs.drop_first())
    }
}

/// Ordering: folding a stream of valid, properly linked blocks always
/// succeeds, appends exactly one reference per non-genesis block, in exactly
/// stream arrival order, keeps the arena well-formed, and returns the
/// reference of the last filtered block (or the seed when the filtered
/// stream is empty). The arena length bound is the machine limit on what a
/// store can hold.
pub proof fn lemma_fold_ordering(s: Seq<Ref>, block0: HeaderHash, c: Ref, bs: Seq<Block>)
    requires
        store_wf(s),
        has_ref(s, c),
        well_linked_from(s, block0, c, bs),
        s.len() + bs.len() <= usize::MAX,
    ensures
        ({
            let f = fold_spec(s, block0, c, bs);
            &&& f.1 is Ok
            &&& store_wf(f.0)
            &&& hashes_of(f.0) == hashes_of(s) + filtered_hashes(bs, block0)
            &&& (filtered_hashes(bs, block0).len() == 0 ==> f.1 == Ok::<Ref, Error>(c))
            &&& (filtered_hashes(bs, block0).len() > 0 ==> (f.1 matches Ok(r) && r.hash
                == filtered_hashes(bs, block0).last()))
        }),
    decreases bs.len(),
{
    let f = fold_spec(s, block0, c, bs);
    if bs.len() == 0 {
        assert(hashes_of(s) + filtered_hashes(bs, block0) =~= hashes_of(s));
    } else if bs[0].header.hash == block0 {
        lemma_fold_ordering(s, block0, c, bs.drop_first());
    } else {
        let h = bs[0].header;
        let r = child_ref(c, h);
        let i = choose|i: int| 0 <= i < s.len() && s[i] == c;
        assert(s[i].hash == c.hash);
        assert(contains_hash(s, h.parent));
        lemma_lookup(s, h.parent);
        assert(lookup(s, h.parent) == c);
        assert(c.chain_length <= i < s.len());
        lemma_push_wf(s, c, h);
        let st = step_spec(s, bs[0]);
        assert(st == (s.push(r), Ok::<Ref, Error>(r)));
        assert(has_ref(s.push(r), r)) by {
            assert(s.push(r)[s.len() as int] == r);
        }
        lemma_fold_ordering(s.push(r), block0, r, bs.drop_first());
        let rest = filtered_hashes(bs.drop_first(), block0);
        assert(hashes_of(s.push(r)) =~= hashes_of(s).push(r.hash));
        assert(hashes_of(s).push(r.hash) + rest =~= hashes_of(s) + (seq![r.hash] + rest));
        assert(filtered_hashes(bs, block0) == seq![r.hash] + rest);
        assert(hashes_of(f.0) == hashes_of(s) + filtered_hashes(bs, block0));
        if rest.len() == 0 {
            assert(filtered_hashes(bs, block0).last() == r.hash);
        } else {
            assert(filtered_hashes(bs, block0).last() == rest.last());
        }
    }
}

} // verus!
