use chain_bootstrap::bootstrap::{
    bootstrap_from_blocks, bootstrap_from_stream, consume_event, handle_block, Error, StreamEvent,
};
use chain_bootstrap::chain::{date_strictly_before, Block, BlockDate, Header, HeaderHash, Ref};
use chain_bootstrap::store::{ChainStore, PreCheckedHeader, StoreError};
use chain_bootstrap::tip::{select_new_tip, Tip};

fn hash(value: u64) -> HeaderHash {
    HeaderHash { value }
}

fn date(epoch: u32, slot: u32) -> BlockDate {
    BlockDate { epoch, slot }
}

fn block(own: u64, parent: u64, d: BlockDate) -> Block {
    Block {
        header: Header { hash: hash(own), parent: hash(parent), date: d },
        body: vec![],
    }
}

/// A store anchored at genesis hash 1, date (0, 0), with its genesis Ref.
fn genesis_store() -> (ChainStore, Ref) {
    let store = ChainStore::new(hash(1), date(0, 0));
    let genesis = store.get_ref_by_hash(hash(1)).unwrap();
    (store, genesis)
}

#[test]
fn genesis_store_anchor() {
    let (store, genesis) = genesis_store();
    assert_eq!(store.block0(), hash(1));
    assert_eq!(genesis.hash, hash(1));
    assert_eq!(genesis.parent, hash(1));
    assert_eq!(genesis.chain_length, 0);
    assert!(store.get_ref_by_hash(hash(9)).is_none());
}

#[test]
fn ordering_three_blocks_applied_in_stream_order() {
    let (mut store, genesis) = genesis_store();
    let blocks = vec![
        block(2, 1, date(0, 1)),
        block(3, 2, date(0, 2)),
        block(4, 3, date(1, 0)),
    ];
    let res = bootstrap_from_stream(&mut store, genesis, &blocks).unwrap();
    assert_eq!(res.hash, hash(4));
    assert_eq!(res.chain_length, 3);
    let a = store.get_ref_by_hash(hash(2)).unwrap();
    let b = store.get_ref_by_hash(hash(3)).unwrap();
    assert_eq!(a.chain_length, 1);
    assert_eq!(a.parent, hash(1));
    assert_eq!(b.chain_length, 2);
    assert_eq!(b.parent, hash(2));
    assert_eq!(res.parent, hash(3));
}

#[test]
fn empty_stream_returns_seed() {
    let (mut store, genesis) = genesis_store();
    let res = bootstrap_from_stream(&mut store, genesis, &vec![]).unwrap();
    assert_eq!(res, genesis);
}

#[test]
fn genesis_idempotence() {
    let with_dup = vec![
        block(1, 1, date(0, 0)),
        block(2, 1, date(0, 1)),
        block(3, 2, date(0, 2)),
    ];
    let without_dup = vec![block(2, 1, date(0, 1)), block(3, 2, date(0, 2))];

    let (mut store_a, genesis_a) = genesis_store();
    let res_a = bootstrap_from_stream(&mut store_a, genesis_a, &with_dup).unwrap();
    let (mut store_b, genesis_b) = genesis_store();
    let res_b = bootstrap_from_stream(&mut store_b, genesis_b, &without_dup).unwrap();

    assert_eq!(res_a, res_b);
    for h in 1..=3 {
        assert_eq!(store_a.get_ref_by_hash(hash(h)), store_b.get_ref_by_hash(hash(h)));
    }
}

#[test]
fn already_present_is_fatal_and_halts() {
    let (mut store, genesis) = genesis_store();
    let blocks = vec![
        block(2, 1, date(0, 1)),
        block(2, 1, date(0, 1)),
        block(3, 2, date(0, 2)),
    ];
    let res = bootstrap_from_stream(&mut store, genesis, &blocks);
    assert_eq!(res, Err(Error::BlockAlreadyPresent(hash(2))));
    // The block before the offending one stays applied; nothing after it is.
    assert!(store.get_ref_by_hash(hash(2)).is_some());
    assert!(store.get_ref_by_hash(hash(3)).is_none());
}

#[test]
fn missing_parent_is_fatal_and_halts() {
    let (mut store, genesis) = genesis_store();
    let blocks = vec![
        block(2, 1, date(0, 1)),
        block(3, 7, date(0, 2)),
        block(4, 3, date(0, 3)),
    ];
    let res = bootstrap_from_stream(&mut store, genesis, &blocks);
    assert_eq!(res, Err(Error::BlockMissingParent(hash(3))));
    assert!(store.get_ref_by_hash(hash(2)).is_some());
    assert!(store.get_ref_by_hash(hash(3)).is_none());
    assert!(store.get_ref_by_hash(hash(4)).is_none());
}

#[test]
fn non_increasing_date_short_circuits() {
    let (mut store, genesis) = genesis_store();
    let blocks = vec![
        block(2, 1, date(0, 5)),
        block(3, 2, date(0, 5)),
        block(4, 3, date(0, 6)),
    ];
    let res = bootstrap_from_stream(&mut store, genesis, &blocks);
    assert_eq!(
        res,
        Err(Error::HeaderCheckFailed { source: StoreError::NonIncreasingDate })
    );
    assert!(store.get_ref_by_hash(hash(2)).is_some());
    assert!(store.get_ref_by_hash(hash(3)).is_none());
    assert!(store.get_ref_by_hash(hash(4)).is_none());
}

#[test]
fn end_to_end_success_scenario() {
    // Local tip = genesis G; peer stream = [G, A(parent=G), B(parent=A)].
    let (mut store, genesis) = genesis_store();
    let mut branch = Tip::new(genesis);
    let blocks = vec![
        block(1, 1, date(0, 0)),
        block(2, 1, date(0, 1)),
        block(3, 2, date(0, 2)),
    ];
    let res = bootstrap_from_blocks(&mut store, &mut branch, &blocks).unwrap();
    assert_eq!(res.hash, hash(3));
    assert_eq!(res.chain_length, 2);
    assert_eq!(branch.get_ref(), res);
    // G was filtered out, A and B applied.
    assert_eq!(store.get_ref_by_hash(hash(2)).unwrap().chain_length, 1);
    assert_eq!(store.get_ref_by_hash(hash(3)).unwrap(), res);
}

#[test]
fn end_to_end_failure_scenario() {
    // Local tip = genesis G; peer stream = [A(parent=G), C(parent=X)], X unknown.
    let (mut store, genesis) = genesis_store();
    let mut branch = Tip::new(genesis);
    let blocks = vec![block(2, 1, date(0, 1)), block(3, 9, date(0, 2))];
    let res = bootstrap_from_blocks(&mut store, &mut branch, &blocks);
    assert_eq!(res, Err(Error::BlockMissingParent(hash(3))));
    // apply(A) succeeded, the tip stays at G: selection was never invoked.
    assert!(store.get_ref_by_hash(hash(2)).is_some());
    assert_eq!(branch.get_ref(), genesis);
}

#[test]
fn tip_selection_monotonic_and_idempotent() {
    let (mut store, genesis) = genesis_store();
    let mut branch = Tip::new(genesis);
    let blocks = vec![block(2, 1, date(0, 1)), block(3, 2, date(0, 2))];
    let candidate = bootstrap_from_stream(&mut store, genesis, &blocks).unwrap();

    // A better candidate replaces the tip.
    select_new_tip(&store, &mut branch, candidate);
    assert_eq!(branch.get_ref(), candidate);
    // A second selection of the same candidate is a no-op.
    select_new_tip(&store, &mut branch, candidate);
    assert_eq!(branch.get_ref(), candidate);
    // A not-better candidate never replaces the tip.
    let worse = store.get_ref_by_hash(hash(2)).unwrap();
    select_new_tip(&store, &mut branch, worse);
    assert_eq!(branch.get_ref(), candidate);
    select_new_tip(&store, &mut branch, candidate);
    assert_eq!(branch.get_ref(), candidate);
}

#[test]
fn handle_block_applies_and_classifies() {
    let (mut store, _genesis) = genesis_store();
    let a = block(2, 1, date(0, 1));
    let applied = handle_block(&mut store, &a).unwrap();
    assert_eq!(applied.hash, hash(2));
    assert_eq!(applied.parent, hash(1));
    assert_eq!(applied.chain_length, 1);

    // Resending the same block is fatal.
    assert_eq!(
        handle_block(&mut store, &a),
        Err(Error::BlockAlreadyPresent(hash(2)))
    );
    // A block with an unknown parent is fatal.
    let orphan = block(5, 9, date(0, 2));
    assert_eq!(
        handle_block(&mut store, &orphan),
        Err(Error::BlockMissingParent(hash(5)))
    );
    // A block that does not advance the date is a header-check fault.
    let stale = block(6, 2, date(0, 1));
    assert_eq!(
        handle_block(&mut store, &stale),
        Err(Error::HeaderCheckFailed { source: StoreError::NonIncreasingDate })
    );
}

#[test]
fn pre_check_classifies_three_ways() {
    let (store, genesis) = genesis_store();
    match store.pre_check_header(Header { hash: hash(1), parent: hash(1), date: date(0, 0) }, true)
    {
        PreCheckedHeader::AlreadyPresent { header } => assert_eq!(header.hash, hash(1)),
        _ => panic!("expected AlreadyPresent"),
    }
    match store.pre_check_header(Header { hash: hash(2), parent: hash(9), date: date(0, 1) }, true)
    {
        PreCheckedHeader::MissingParent { header } => assert_eq!(header.hash, hash(2)),
        _ => panic!("expected MissingParent"),
    }
    match store.pre_check_header(Header { hash: hash(2), parent: hash(1), date: date(0, 1) }, true)
    {
        PreCheckedHeader::HeaderWithCache { header, parent_ref } => {
            assert_eq!(header.hash, hash(2));
            assert_eq!(parent_ref, genesis);
        }
        _ => panic!("expected HeaderWithCache"),
    }
}

#[test]
fn post_check_rejects_mismatch_and_stale_date() {
    let (store, genesis) = genesis_store();
    let good = Header { hash: hash(2), parent: hash(1), date: date(0, 1) };
    let checked = store.post_check_header(good, genesis).unwrap();
    assert_eq!(checked.header, good);
    assert_eq!(checked.parent_ref, genesis);

    let mismatched = Header { hash: hash(2), parent: hash(7), date: date(0, 1) };
    assert!(matches!(
        store.post_check_header(mismatched, genesis),
        Err(StoreError::ParentMismatch)
    ));
    let stale = Header { hash: hash(2), parent: hash(1), date: date(0, 0) };
    assert!(matches!(
        store.post_check_header(stale, genesis),
        Err(StoreError::NonIncreasingDate)
    ));
}

#[test]
fn consume_event_steps() {
    let (mut store, genesis) = genesis_store();
    // A genesis duplicate is filtered: the running reference is kept.
    let dup = StreamEvent::Received(block(1, 1, date(0, 0)));
    assert_eq!(consume_event(&mut store, genesis, &dup), Ok(genesis));
    // A fresh block advances the running reference.
    let fresh = StreamEvent::Received(block(2, 1, date(0, 1)));
    let advanced = consume_event(&mut store, genesis, &fresh).unwrap();
    assert_eq!(advanced.hash, hash(2));
    // A mid-stream transport failure aborts.
    assert_eq!(
        consume_event(&mut store, advanced, &StreamEvent::Failed),
        Err(Error::PullStreamFailed)
    );
    // Exhaustion confirms the running reference.
    assert_eq!(
        consume_event(&mut store, advanced, &StreamEvent::Exhausted),
        Ok(advanced)
    );
}

#[test]
fn date_order_is_epoch_then_slot() {
    assert!(date_strictly_before(date(0, 5), date(1, 0)));
    assert!(date_strictly_before(date(1, 0), date(1, 1)));
    assert!(!date_strictly_before(date(1, 1), date(1, 1)));
    assert!(!date_strictly_before(date(2, 0), date(1, 9)));
}
