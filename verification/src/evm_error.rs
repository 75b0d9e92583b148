//! What can go wrong when a block is executed, and what follows for the block.

use crate::primitives::Address;
use crate::primitives::B256;
use crate::primitives::U256;
use crate::text::address_text;
use crate::text::decimal;
use crate::text::decimal_text;
use crate::text::hash_text;
use crate::text::show_address;
use crate::text::show_hash;
use crate::text::show_u256;
use vstd::prelude::*;

verus! {

/// A value that is not the expected one.
#[derive(Debug)]
pub struct GotExpected<T> {
    /// What there is.
    pub got: T,
    /// What there should be.
    pub expected: T,
}

/// A block breaks a rule.
#[derive(Debug)]
pub enum BscBlockValidationError {
    /// The proposer is in its backoff period.
    FutureBlock {
        /// Number of the block.
        block_number: u64,
        /// Hash of the block.
        hash: B256,
    },
    /// There are more system transactions than expected.
    UnexpectedSystemTx,
    /// A normal transaction stands after a system transaction.
    UnexpectedNormalTx,
    /// The validators in the header are invalid.
    InvalidValidators,
    /// The extra data of the attestation is too long.
    TooLargeAttestationExtraLen {
        /// Its length.
        extra_len: usize,
    },
    /// The target of the attestation is invalid.
    InvalidAttestationTarget {
        /// Number of the target.
        block_number: GotExpected<u64>,
        /// Hash of the target.
        block_hash: GotExpected<B256>,
    },
    /// The source of the attestation is invalid.
    InvalidAttestationSource {
        /// Number of the source.
        block_number: GotExpected<u64>,
        /// Hash of the source.
        block_hash: GotExpected<B256>,
    },
    /// The attestation has the wrong number of votes.
    InvalidAttestationVoteCount(GotExpected<u64>),
    /// The aggregated signature of the attestation is invalid.
    InvalidAttestationSignature,
    /// The header was signed by another account than it says.
    WrongHeaderSigner {
        /// Number of the block.
        block_number: u64,
        /// The signer.
        signer: GotExpected<Address>,
    },
    /// The signer is no validator.
    SignerUnauthorized {
        /// Number of the block.
        block_number: u64,
        /// The signer.
        proposer: Address,
    },
    /// The signer has sealed too many blocks lately.
    SignerOverLimit {
        /// The signer.
        proposer: Address,
    },
    /// The difficulty is invalid.
    InvalidDifficulty {
        /// The difficulty.
        difficulty: U256,
    },
    /// The current validators could not be read.
    InvalidCurrentValidatorsData,
    /// The election of the validators could not be read.
    InvalidValidatorsElectionInfoData,
    /// The turn length of an epoch block is not the one that was computed.
    MismatchingEpochTurnLengthError,
    /// Consensus failed.
    ParliaConsensusError {
        /// How, in words.
        error: String,
    },
}

/// A block could not be executed.
#[derive(Debug)]
pub enum BscBlockExecutionError {
    /// The block breaks a rule.
    Validation(BscBlockValidationError),
    /// There is no snapshot.
    SnapshotNotFound,
    /// A call failed.
    EthCallFailed,
    /// The top validators could not be had.
    GetTopValidatorsFailed,
    /// The parent is not known.
    ParentUnknown {
        /// Its hash.
        hash: B256,
    },
    /// The header could not be applied to the snapshot.
    ApplySnapshotFailed,
    /// The header is not known.
    UnknownHeader {
        /// Its hash.
        block_hash: B256,
    },
    /// The snapshot has no vote address of a validator.
    VoteAddrNotFoundInSnap {
        /// The validator.
        address: Address,
    },
    /// A BLS operation failed.
    BLSTInnerError,
    /// The provider failed.
    ProviderInnerError {
        /// How, in words.
        error: String,
    },
    /// A system contract could not be upgraded.
    SystemContractUpgradeError,
    /// A system transaction could not be signed.
    FailedToSignSystemTransaction {
        /// Why.
        error: String,
    },
    /// There is no signer though blocks are made.
    GlobalSignerNotInitializedForMiningMode,
}

/// What follows for a block from an error.
#[derive(Clone, Copy, Debug, PartialEq, Eq, Structural)]
pub enum ErrorClass {
    /// The block may become valid after a short delay.
    Transient,
    /// The block breaks the rules of consensus and will never become valid.
    Permanent,
    /// The node failed; nothing follows for the block.
    Internal,
}

/// What follows for a block from an error.
pub open spec fn class_of(e: BscBlockExecutionError) -> ErrorClass {
    match e {
        BscBlockExecutionError::Validation(BscBlockValidationError::FutureBlock { .. }) =>
            ErrorClass::Transient,
        BscBlockExecutionError::Validation(_) => ErrorClass::Permanent,
        _ => ErrorClass::Internal,
    }
}

impl BscBlockExecutionError {
    /// What follows for the block.
    pub fn class(&self) -> (r: ErrorClass)
        ensures
            r == class_of(*self),
    {
        match self {
            BscBlockExecutionError::Validation(v) => match v {
                BscBlockValidationError::FutureBlock { block_number: _, hash: _ } =>
                    ErrorClass::Transient,
                _ => ErrorClass::Permanent,
            },
            _ => ErrorClass::Internal,
        }
    }

    /// Whether the block is remembered as invalid, and counted as a bad one: only where it will
    /// never become valid.
    pub fn marks_block_invalid(&self) -> (r: bool)
        ensures
            r == (class_of(*self) == ErrorClass::Permanent),
    {
        match self.class() {
            ErrorClass::Permanent => true,
            _ => false,
        }
    }
}

/// How it is said that a value is not the expected one.
pub open spec fn mismatch_text(got: Seq<char>, expected: Seq<char>) -> Seq<char> {
    "got "@ + got + ", expected "@ + expected
}

fn mismatch(got: String, expected: String) -> (r: String)
    ensures
        r@ == mismatch_text(got@, expected@),
{
    let mut s = "got ".to_owned();
    s.append(got.as_str());
    s.append(", expected ");
    s.append(expected.as_str());
    s
}

/// How it is said that a number is not the expected one.
pub open spec fn numbers_text(e: GotExpected<u64>) -> Seq<char> {
    mismatch_text(decimal_text(e.got as nat), decimal_text(e.expected as nat))
}

/// How it is said that a hash is not the expected one.
pub open spec fn hashes_text(e: GotExpected<B256>) -> Seq<char> {
    mismatch_text(hash_text(e.got@), hash_text(e.expected@))
}

/// How it is said that an account is not the expected one.
pub open spec fn accounts_text(e: GotExpected<Address>) -> Seq<char> {
    mismatch_text(address_text(e.got@), address_text(e.expected@))
}

fn show_numbers(e: &GotExpected<u64>) -> (r: String)
    ensures
        r@ == numbers_text(*e),
{
    mismatch(decimal(e.got), decimal(e.expected))
}

fn show_hashes(e: &GotExpected<B256>) -> (r: String)
    ensures
        r@ == hashes_text(*e),
{
    mismatch(show_hash(&e.got), show_hash(&e.expected))
}

fn show_accounts(e: &GotExpected<Address>) -> (r: String)
    ensures
        r@ == accounts_text(*e),
{
    mismatch(show_address(&e.got), show_address(&e.expected))
}

/// A broken rule in words.
pub open spec fn validation_text(e: BscBlockValidationError) -> Seq<char> {
    match e {
        BscBlockValidationError::FutureBlock { block_number, hash } =>
            "block [number="@ + decimal_text(block_number as nat) + ", hash="@ + hash_text(hash@)
                + "] proposer is in the backoff period"@,
        BscBlockValidationError::UnexpectedSystemTx => "unexpected system tx"@,
        BscBlockValidationError::UnexpectedNormalTx => "unexpected normal tx after system tx"@,
        BscBlockValidationError::InvalidValidators => "invalid validators in header"@,
        BscBlockValidationError::TooLargeAttestationExtraLen { extra_len } =>
            "attestation extra length "@ + decimal_text(extra_len as nat) + " is too large"@,
        BscBlockValidationError::InvalidAttestationTarget { block_number, block_hash } =>
            "invalid attestation target: number "@ + numbers_text(block_number) + ", hash "@
                + hashes_text(block_hash),
        BscBlockValidationError::InvalidAttestationSource { block_number, block_hash } =>
            "invalid attestation source: number "@ + numbers_text(block_number) + ", hash "@
                + hashes_text(block_hash),
        BscBlockValidationError::InvalidAttestationVoteCount(count) =>
            "invalid attestation vote count: "@ + numbers_text(count),
        BscBlockValidationError::InvalidAttestationSignature => "invalid attestation signature"@,
        BscBlockValidationError::WrongHeaderSigner { block_number, signer } =>
            "wrong header signer: block number "@ + decimal_text(block_number as nat) + ", signer "@
                + accounts_text(signer),
        BscBlockValidationError::SignerUnauthorized { block_number, proposer } =>
            "proposer "@ + address_text(proposer@) + " at height "@
                + decimal_text(block_number as nat) + " is not authorized"@,
        BscBlockValidationError::SignerOverLimit { proposer } =>
            "proposer "@ + address_text(proposer@) + " is over limit"@,
        BscBlockValidationError::InvalidDifficulty { difficulty } =>
            "invalid block difficulty: "@ + decimal_text(difficulty.value()),
        BscBlockValidationError::InvalidCurrentValidatorsData => "invalid current validators data"@,
        BscBlockValidationError::InvalidValidatorsElectionInfoData =>
            "invalid validators election info data"@,
        BscBlockValidationError::MismatchingEpochTurnLengthError =>
            "mismatching turn length on epoch block"@,
        BscBlockValidationError::ParliaConsensusError { error } =>
            "parlia consensus error: "@ + error@,
    }
}

/// An error in words.
pub open spec fn execution_text(e: BscBlockExecutionError) -> Seq<char> {
    match e {
        BscBlockExecutionError::Validation(v) => validation_text(v),
        BscBlockExecutionError::SnapshotNotFound => "no snapshot found"@,
        BscBlockExecutionError::EthCallFailed => "eth call failed"@,
        BscBlockExecutionError::GetTopValidatorsFailed => "get top validators failed"@,
        BscBlockExecutionError::ParentUnknown { hash } =>
            "block parent [hash="@ + hash_text(hash@) + "] is not known"@,
        BscBlockExecutionError::ApplySnapshotFailed => "apply snapshot failed"@,
        BscBlockExecutionError::UnknownHeader { block_hash } =>
            "unknown header [hash="@ + hash_text(block_hash@) + "]"@,
        BscBlockExecutionError::VoteAddrNotFoundInSnap { address } =>
            "vote address not found: "@ + address_text(address@),
        BscBlockExecutionError::BLSTInnerError => "blst inner error"@,
        BscBlockExecutionError::ProviderInnerError { error } => "provider inner error: "@ + error@,
        BscBlockExecutionError::SystemContractUpgradeError => "system contract upgrade error"@,
        BscBlockExecutionError::FailedToSignSystemTransaction { error } =>
            "failed to sign system transaction: "@ + error@,
        BscBlockExecutionError::GlobalSignerNotInitializedForMiningMode =>
            "global signer not initialized for mining mode"@,
    }
}

impl BscBlockValidationError {
    /// The error in words.
    pub fn message(&self) -> (r: String)
        ensures
            r@ == validation_text(*self),
    {
        match self {
            BscBlockValidationError::FutureBlock { block_number, hash } => {
                let mut s = "block [number=".to_owned();
                s.append(decimal(*block_number).as_str());
                s.append(", hash=");
                s.append(show_hash(hash).as_str());
                s.append("] proposer is in the backoff period");
                s
            },
            BscBlockValidationError::UnexpectedSystemTx => "unexpected system tx".to_owned(),
            BscBlockValidationError::UnexpectedNormalTx =>
                "unexpected normal tx after system tx".to_owned(),
            BscBlockValidationError::InvalidValidators => "invalid validators in header".to_owned(),
            BscBlockValidationError::TooLargeAttestationExtraLen { extra_len } => {
                let mut s = "attestation extra length ".to_owned();
                s.append(decimal(*extra_len as u64).as_str());
                s.append(" is too large");
                s
            },
            BscBlockValidationError::InvalidAttestationTarget { block_number, block_hash } => {
                let mut s = "invalid attestation target: number ".to_owned();
                s.append(show_numbers(block_number).as_str());
                s.append(", hash ");
                s.append(show_hashes(block_hash).as_str());
                s
            },
            BscBlockValidationError::InvalidAttestationSource { block_number, block_hash } => {
                let mut s = "invalid attestation source: number ".to_owned();
                s.append(show_numbers(block_number).as_str());
                s.append(", hash ");
                s.append(show_hashes(block_hash).as_str());
                s
            },
            BscBlockValidationError::InvalidAttestationVoteCount(count) => {
                let mut s = "invalid attestation vote count: ".to_owned();
                s.append(show_numbers(count).as_str());
                s
            },
            BscBlockValidationError::InvalidAttestationSignature =>
                "invalid attestation signature".to_owned(),
            BscBlockValidationError::WrongHeaderSigner { block_number, signer } => {
                let mut s = "wrong header signer: block number ".to_owned();
                s.append(decimal(*block_number).as_str());
                s.append(", signer ");
                s.append(show_accounts(signer).as_str());
                s
            },
            BscBlockValidationError::SignerUnauthorized { block_number, proposer } => {
                let mut s = "proposer ".to_owned();
                s.append(show_address(proposer).as_str());
                s.append(" at height ");
                s.append(decimal(*block_number).as_str());
                s.append(" is not authorized");
                s
            },
            BscBlockValidationError::SignerOverLimit { proposer } => {
                let mut s = "proposer ".to_owned();
                s.append(show_address(proposer).as_str());
                s.append(" is over limit");
                s
            },
            BscBlockValidationError::InvalidDifficulty { difficulty } => {
                let mut s = "invalid block difficulty: ".to_owned();
                s.append(show_u256(difficulty).as_str());
                s
            },
            BscBlockValidationError::InvalidCurrentValidatorsData =>
                "invalid current validators data".to_owned(),
            BscBlockValidationError::InvalidValidatorsElectionInfoData =>
                "invalid validators election info data".to_owned(),
            BscBlockValidationError::MismatchingEpochTurnLengthError =>
                "mismatching turn length on epoch block".to_owned(),
            BscBlockValidationError::ParliaConsensusError { error } => {
                let mut s = "parlia consensus error: ".to_owned();
                s.append(error.as_str());
                s
            },
        }
    }
}

impl BscBlockExecutionError {
    /// The error in words: that of a broken rule where there is one.
    pub fn message(&self) -> (r: String)
        ensures
            r@ == execution_text(*self),
    {
        match self {
            BscBlockExecutionError::Validation(v) => v.message(),
            BscBlockExecutionError::SnapshotNotFound => "no snapshot found".to_owned(),
            BscBlockExecutionError::EthCallFailed => "eth call failed".to_owned(),
            BscBlockExecutionError::GetTopValidatorsFailed =>
                "get top validators failed".to_owned(),
            BscBlockExecutionError::ParentUnknown { hash } => {
                let mut s = "block parent [hash=".to_owned();
                s.append(show_hash(hash).as_str());
                s.append("] is not known");
                s
            },
            BscBlockExecutionError::ApplySnapshotFailed => "apply snapshot failed".to_owned(),
            BscBlockExecutionError::UnknownHeader { block_hash } => {
                let mut s = "unknown header [hash=".to_owned();
                s.append(show_hash(block_hash).as_str());
                s.append("]");
                s
            },
            BscBlockExecutionError::VoteAddrNotFoundInSnap { address } => {
                let mut s = "vote address not found: ".to_owned();
                s.append(show_address(address).as_str());
                s
            },
            BscBlockExecutionError::BLSTInnerError => "blst inner error".to_owned(),
            BscBlockExecutionError::ProviderInnerError { error } => {
                let mut s = "provider inner error: ".to_owned();
                s.append(error.as_str());
                s
            },
            BscBlockExecutionError::SystemContractUpgradeError =>
                "system contract upgrade error".to_owned(),
            BscBlockExecutionError::FailedToSignSystemTransaction { error } => {
                let mut s = "failed to sign system transaction: ".to_owned();
                s.append(error.as_str());
                s
            },
            BscBlockExecutionError::GlobalSignerNotInitializedForMiningMode =>
                "global signer not initialized for mining mode".to_owned(),
        }
    }
}

/// Why a block that was executed is invalid.
#[derive(Debug)]
pub enum BlockValidationError {
    /// The variant that carries a broken rule of this chain.
    DepositRequestDecode(String),
}

/// What the engine is handed for an error.
#[derive(Debug)]
pub enum BlockExecutionError {
    /// The block is invalid, and is remembered as such.
    Validation(BlockValidationError),
    /// Nothing follows for the block.
    Other(BscBlockExecutionError),
}

/// What the engine is handed for an error: of a block that will never become valid the reason in
/// words, else the error itself.
pub open spec fn handed_on(err: BscBlockExecutionError, r: BlockExecutionError) -> bool {
    match err {
        BscBlockExecutionError::Validation(v) => if v is FutureBlock {
            r == BlockExecutionError::Other(err)
        } else {
            r matches BlockExecutionError::Validation(
                BlockValidationError::DepositRequestDecode(text),
            ) && text@ == "BSC validation error: "@ + validation_text(v)
        },
        _ => r == BlockExecutionError::Other(err),
    }
}

impl From<BscBlockExecutionError> for BlockExecutionError {
    fn from(err: BscBlockExecutionError) -> (r: Self)
        ensures
            handed_on(err, r),
    {
        match err {
            BscBlockExecutionError::Validation(v) => {
                if matches!(v, BscBlockValidationError::FutureBlock { .. }) {
                    return BlockExecutionError::Other(BscBlockExecutionError::Validation(v));
                }
                let mut text = "BSC validation error: ".to_owned();
                text.append(v.message().as_str());
                BlockExecutionError::Validation(BlockValidationError::DepositRequestDecode(text))
            },
            other => BlockExecutionError::Other(other),
        }
    }
}

// What is handed on may hold a text of its own, so `handed_on` says what it is, not an equation.
impl vstd::std_specs::convert::FromSpecImpl<BscBlockExecutionError> for BlockExecutionError {
    open spec fn obeys_from_spec() -> bool {
        false
    }

    open spec fn from_spec(err: BscBlockExecutionError) -> Self {
        BlockExecutionError::Other(err)
    }
}

/// The engine remembers a block as invalid exactly where the error marks it so.
pub proof fn law_only_marked_blocks_are_handed_on_as_invalid(
    err: BscBlockExecutionError,
    r: BlockExecutionError,
)
    requires
        handed_on(err, r),
    ensures
        r is Validation <==> class_of(err) == ErrorClass::Permanent,
        r is Other ==> r == BlockExecutionError::Other(err),
{
}

/// An error that does not lie in the block never marks it as invalid, and neither does one that
/// passes.
pub proof fn law_only_broken_rules_mark_a_block(e: BscBlockExecutionError)
    ensures
        class_of(e) == ErrorClass::Permanent ==> e is Validation,
        e matches BscBlockExecutionError::Validation(BscBlockValidationError::FutureBlock { .. })
            ==> class_of(e) != ErrorClass::Permanent,
        e !is Validation ==> class_of(e) == ErrorClass::Internal,
{
}

/// A block is marked as invalid for each broken rule but one: that it came too early will pass.
pub proof fn law_broken_rules_are_permanent_but_one(e: BscBlockExecutionError)
    ensures
        class_of(e) == ErrorClass::Permanent <==> (e matches BscBlockExecutionError::Validation(v)
            && !(v is FutureBlock)),
        class_of(e) == ErrorClass::Transient <==> (e matches BscBlockExecutionError::Validation(v)
            && v is FutureBlock),
{
}

/// What was got is named before what was expected.
pub proof fn law_got_comes_before_expected(got: Seq<char>, expected: Seq<char>)
    ensures
        ({
            let text = mismatch_text(got, expected);
            &&& text.len() == got.len() + expected.len() + 15
            &&& text.subrange(4, 4 + got.len() as int) == got
            &&& text.skip(15 + got.len() as int) == expected
        }),
{
    reveal_strlit("got ");
    reveal_strlit(", expected ");
    let text = mismatch_text(got, expected);
    assert(text.subrange(4, 4 + got.len() as int) =~= got);
    assert(text.skip(15 + got.len() as int) =~= expected);
}

} // verus!
