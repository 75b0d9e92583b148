use bsc_parlia::block_builder::{
    abort_message, BscBlockBuilder, BscExecutionSharedCtx, RecoveredTx, RootChoice, RootWait, Sink,
};
use bsc_parlia::primitives::{Address, VoteAddress, B256};

type Builder = BscBlockBuilder<u32, &'static str>;

fn builder(sink: Sink<(B256, &'static str)>, deadline: Option<u64>) -> Builder {
    BscBlockBuilder::new(
        sink,
        deadline,
        Sink::Registered(None),
        Sink::Unregistered,
        BscExecutionSharedCtx {
            current_validators: Some((vec![Address::zero()], vec![VoteAddress::zero()])),
            turn_length: Some(4),
            assembled_system_txs: vec![tx(90), tx(91)],
        },
    )
}

fn tx(n: u32) -> RecoveredTx<u32> {
    RecoveredTx { tx: n, sender: Address { bytes: [n as u8; 20] } }
}

fn root(b: u8) -> B256 {
    B256 { bytes: [b; 32] }
}

#[test]
fn system_transactions_stand_at_the_end() {
    let mut b = builder(Sink::Unregistered, None);
    b.on_executed(tx(1), true);
    b.on_executed(tx(2), false);
    b.on_executed(tx(3), true);
    let done = b.into_parts();
    assert_eq!(done.transactions, vec![1, 3, 90, 91]);
    assert_eq!(done.senders[1], Address { bytes: [3; 20] });
    assert_eq!(done.senders[3], Address { bytes: [91; 20] });
    assert_eq!((done.user_tx_len, done.system_tx_len), (2, 2));
    match done.validator_cache_sink {
        Sink::Registered(Some((validators, keys))) => {
            assert_eq!((validators.len(), keys.len()), (1, 1));
        }
        _ => panic!("the validators are missing"),
    }
    assert!(matches!(done.turn_length_sink, Sink::Unregistered));
}

#[test]
fn the_wait_for_the_root_ends_with_the_deadline() {
    let b = builder(Sink::Unregistered, Some(1000));
    assert_eq!(b.root_wait(false, 10), RootWait::Skip);
    assert_eq!(b.root_wait(true, 400), RootWait::Bounded(600));
    assert_eq!(b.root_wait(true, 1400), RootWait::Bounded(0));
    assert_eq!(builder(Sink::Unregistered, None).root_wait(true, 5), RootWait::Unbounded);
}

#[test]
fn a_background_root_comes_before_all_others() {
    for sink in [Sink::Registered(None), Sink::Registered(Some((root(9), "old"))), Sink::Unregistered]
    {
        let mut b = builder(sink, Some(5)).with_precomputed_state_root(Some((root(8), "handed in")));
        b.begin_finish(None);
        b.on_background_root(Some((root(7), "fresh")));
        match b.choose_root(100) {
            RootChoice::Precomputed(r, updates) => {
                assert_eq!(r, root(7));
                assert_eq!(updates, "fresh");
            }
            _ => panic!("the root is there"),
        }
    }
}

#[test]
fn a_root_that_is_handed_in_at_the_end_replaces_an_earlier_one() {
    let mut b = builder(Sink::Registered(None), Some(5))
        .with_precomputed_state_root(Some((root(1), "first")));
    b.begin_finish(Some((root(2), "second")));
    b.on_background_root(None);
    assert!(matches!(b.choose_root(100), RootChoice::Precomputed(_, "second")));
    assert!(matches!(b.choose_root(100), RootChoice::Abort { now_ms: 100, deadline_ms: 5 }));
}

#[test]
fn a_root_is_computed_only_in_time() {
    let mut b = builder(Sink::Unregistered, Some(50));
    assert!(matches!(b.choose_root(49), RootChoice::Compute));
    assert!(matches!(b.choose_root(50), RootChoice::Abort { now_ms: 50, deadline_ms: 50 }));
    let mut free = builder(Sink::Unregistered, None);
    assert!(matches!(free.choose_root(u64::MAX), RootChoice::Compute));
    assert_eq!(
        abort_message(1200, 1000),
        "synchronous state-root aborted: past slot deadline (now_ms=1200 >= deadline_ms=1000)"
    );
}

#[test]
fn without_system_transactions_only_the_executed_ones_are_there() {
    let shared: BscExecutionSharedCtx<u32> = BscExecutionSharedCtx::default();
    let mut b: Builder =
        BscBlockBuilder::new(Sink::Unregistered, None, Sink::Registered(None), Sink::Unregistered, shared);
    b.on_executed(tx(1), true);
    let done = b.into_parts();
    assert_eq!((done.transactions, done.system_tx_len), (vec![1], 0));
    assert!(matches!(done.validator_cache_sink, Sink::Registered(None)));
}
