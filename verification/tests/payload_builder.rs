use bsc_parlia::block::BscBlock;
use bsc_parlia::engine::BuildKind;
use bsc_parlia::header::Header;
use bsc_parlia::payload_builder::{
    BscPayloadBuilder, Execution, NextTx, PoolSidecar, PoolTx, RejectReason, SealedTx,
    SidecarKind, Stage, TxAction,
};
use bsc_parlia::primitives::B256;

fn tx(n: u8, gas_limit: u64, blob_count: Option<u64>) -> PoolTx {
    PoolTx { hash: B256 { bytes: [n; 32] }, gas_limit, blob_count }
}

fn sidecar(kind: SidecarKind, b: u8) -> PoolSidecar {
    PoolSidecar { kind, encoded: vec![b, b] }
}

#[test]
fn a_transaction_that_does_not_fit_is_left_out() {
    let mut fill = BscPayloadBuilder::new(100, Some(3), false);
    assert_eq!(
        fill.on_offered(tx(1, 101, None)),
        TxAction::MarkInvalid(RejectReason::ExceedsGasLimit(101, 100))
    );
    assert_eq!(
        fill.on_offered(tx(2, u64::MAX, None)),
        TxAction::MarkInvalid(RejectReason::ExceedsGasLimit(u64::MAX, 100))
    );
    assert_eq!(
        fill.on_offered(tx(3, 50, Some(4))),
        TxAction::MarkInvalid(RejectReason::TooManyEip4844Blobs { have: 4, permitted: 3 })
    );
    assert_eq!(fill.on_offered(tx(4, 100, None)), TxAction::Execute);
    assert_eq!(fill.on_executed(Execution::Done(60, 2)), NextTx::Continue);
    assert_eq!(fill.cumulative_gas_used, 60);
    assert_eq!(fill.total_fees.limb0, 120);
    assert_eq!(
        fill.on_offered(tx(5, 41, None)),
        TxAction::MarkInvalid(RejectReason::ExceedsGasLimit(41, 100))
    );
    assert_eq!(fill.on_offered(tx(6, 40, None)), TxAction::Execute);
}

#[test]
fn blobs_must_be_there_and_of_the_right_form() {
    let mut fill = BscPayloadBuilder::new(1000, Some(6), false);
    assert_eq!(fill.on_offered(tx(1, 10, Some(1))), TxAction::LookUpBlobs);
    assert_eq!(
        fill.on_blobs(None),
        TxAction::MarkInvalid(RejectReason::MissingEip4844BlobSidecar)
    );
    assert_eq!(fill.on_offered(tx(2, 10, Some(1))), TxAction::LookUpBlobs);
    assert_eq!(
        fill.on_blobs(Some(sidecar(SidecarKind::Eip7594, 1))),
        TxAction::MarkInvalid(RejectReason::UnexpectedEip7594SidecarBeforeOsaka)
    );
    assert!(matches!(fill.stage, Stage::Idle));

    let mut osaka = BscPayloadBuilder::new(1000, Some(6), true);
    assert_eq!(osaka.on_offered(tx(1, 10, Some(1))), TxAction::LookUpBlobs);
    assert_eq!(
        osaka.on_blobs(Some(sidecar(SidecarKind::Eip4844, 1))),
        TxAction::MarkInvalid(RejectReason::UnexpectedEip4844SidecarAfterOsaka)
    );
    assert_eq!(osaka.on_offered(tx(2, 10, Some(1))), TxAction::LookUpBlobs);
    assert_eq!(osaka.on_blobs(Some(sidecar(SidecarKind::Eip7594, 1))), TxAction::Execute);
}

#[test]
fn what_execution_says_decides_what_comes_next() {
    let mut fill = BscPayloadBuilder::new(1000, None, false);
    let steps = [
        (Execution::NonceTooLow, NextTx::Continue),
        (Execution::Invalid, NextTx::MarkInvalid(RejectReason::Invalid)),
        (Execution::Fatal, NextTx::Abort),
    ];
    for (execution, next) in steps {
        assert_eq!(fill.on_offered(tx(1, 10, None)), TxAction::Execute);
        assert_eq!(fill.on_executed(execution), next);
        assert_eq!(fill.cumulative_gas_used, 0);
    }
    assert_eq!(
        fill.on_offered(tx(2, 10, Some(1))),
        TxAction::MarkInvalid(RejectReason::TooManyEip4844Blobs { have: 1, permitted: 0 })
    );
}

fn block(number: u64) -> BscBlock {
    let h = alloy_consensus::Header { number, ..Default::default() };
    BscBlock {
        header: Header::decode(&alloy_rlp::encode(&h)).unwrap().0,
        transactions: Vec::new(),
        ommers: Vec::new(),
        withdrawals: None,
        sidecars: None,
    }
}

#[test]
fn the_blobs_of_a_block_stand_in_the_order_of_its_transactions() {
    let mut fill = BscPayloadBuilder::new(1000, Some(3), false);
    for (n, blobs, next) in [(1u8, 1, NextTx::Continue), (2, 2, NextTx::SkipBlobs)] {
        assert_eq!(fill.on_offered(tx(n, 10, Some(blobs))), TxAction::LookUpBlobs);
        assert_eq!(fill.on_blobs(Some(sidecar(SidecarKind::Eip4844, n))), TxAction::Execute);
        assert_eq!(fill.on_executed(Execution::Done(10, u128::MAX)), next);
    }
    let hash = |n: u8| B256 { bytes: [n; 32] };
    let txs = vec![
        SealedTx { hash: hash(9), is_blob: false },
        SealedTx { hash: hash(2), is_blob: true },
        SealedTx { hash: hash(1), is_blob: true },
    ];
    let payload = fill.build_payload(block(77), &txs, hash(5), None);
    let sidecars = payload.block().sidecars.as_ref().unwrap();
    assert_eq!(sidecars.len(), 2);
    assert_eq!((sidecars[0].tx_index, sidecars[0].tx_hash), (1, hash(2)));
    assert_eq!(sidecars[0].inner, vec![2, 2]);
    assert_eq!((sidecars[1].tx_index, sidecars[1].block_number), (2, 77));
    assert_eq!(sidecars[1].block_hash, hash(5));
    let fees = payload.fees();
    assert_eq!((fees.limb0, fees.limb1, fees.limb2), (u64::MAX - 19, u64::MAX, 19));
    assert!(payload.requests().is_none());
    assert_eq!(payload.build_kind, BuildKind::NormalAttempt);
}
