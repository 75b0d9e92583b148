//! Finishing a block that was built: where its state root comes from, and what goes into it.

use crate::primitives::Address;
use crate::primitives::VoteAddress;
use crate::primitives::B256;
use crate::text::decimal;
use crate::text::decimal_text;
use vstd::prelude::*;

verus! {

/// A transaction with the account that sent it.
pub struct RecoveredTx<T> {
    /// The transaction.
    pub tx: T,
    /// Its sender.
    pub sender: Address,
}

/// What execution hands on to the builder beside its result.
pub struct BscExecutionSharedCtx<T> {
    /// The validators, with their keys, that an epoch block announces.
    pub current_validators: Option<(Vec<Address>, Vec<VoteAddress>)>,
    /// The turn length that it announces.
    pub turn_length: Option<u8>,
    /// The system transactions, which stand at the end of the block.
    pub assembled_system_txs: Vec<RecoveredTx<T>>,
}

impl<T> Default for BscExecutionSharedCtx<T> {
    fn default() -> (r: Self)
        ensures
            r.current_validators is None,
            r.turn_length is None,
            r.assembled_system_txs@ == Seq::<RecoveredTx<T>>::empty(),
    {
        BscExecutionSharedCtx {
            current_validators: None,
            turn_length: None,
            assembled_system_txs: Vec::new(),
        }
    }
}

/// Where a value is left for the maker of the payload, if it asked for it.
pub enum Sink<V> {
    /// Nobody asked.
    Unregistered,
    /// Somebody asked; the value is there or is not.
    Registered(Option<V>),
}

/// How long to wait for the state root that is computed in the background.
#[derive(Clone, Copy, Debug, PartialEq, Eq, Structural)]
pub enum RootWait {
    /// Not at all: none is computed.
    Skip,
    /// Until it is there.
    Unbounded,
    /// For so many milliseconds.
    Bounded(u64),
}

/// Where the state root comes from.
pub enum RootChoice<U> {
    /// It was computed in the background, with these changes to the trie.
    Precomputed(B256, U),
    /// It has to be computed now.
    Compute,
    /// It would have to be computed now, and there is no time left: the block is given up.
    Abort {
        /// The time.
        now_ms: u64,
        /// When the root had to be there.
        deadline_ms: u64,
    },
}

/// A block that is being built from transactions of type `T`; `U` are changes to the state trie.
pub struct BscBlockBuilder<T, U> {
    /// The transactions that were executed.
    pub transactions: Vec<RecoveredTx<T>>,
    /// A state root that was handed to the builder.
    pub precomputed_state_root: Option<(B256, U)>,
    /// A state root that was left by the maker of the payload.
    pub state_root_sink: Sink<(B256, U)>,
    /// Until when the state root may be waited for.
    pub state_root_deadline_ms: Option<u64>,
    /// Where the validators are left.
    pub validator_cache_sink: Sink<(Vec<Address>, Vec<VoteAddress>)>,
    /// Where the turn length is left.
    pub turn_length_sink: Sink<u8>,
    /// What execution hands on.
    pub shared_ctx: BscExecutionSharedCtx<T>,
}

/// What a finished builder hands to the assembly of the block.
pub struct FinishedBuild<T> {
    /// The transactions: those that were executed, then the system transactions.
    pub transactions: Vec<T>,
    /// Their senders.
    pub senders: Vec<Address>,
    /// How many of them are no system transactions.
    pub user_tx_len: usize,
    /// How many of them are.
    pub system_tx_len: usize,
    /// What is left for the maker of the payload of the validators.
    pub validator_cache_sink: Sink<(Vec<Address>, Vec<VoteAddress>)>,
    /// What is left for the maker of the payload of the turn length.
    pub turn_length_sink: Sink<u8>,
}

/// The transactions without their senders.
pub open spec fn txs_of<T>(s: Seq<RecoveredTx<T>>) -> Seq<T> {
    Seq::new(s.len(), |i: int| s[i].tx)
}

/// The senders of the transactions.
pub open spec fn senders_of<T>(s: Seq<RecoveredTx<T>>) -> Seq<Address> {
    Seq::new(s.len(), |i: int| s[i].sender)
}

/// A sink after a value was offered to it: one that was asked for takes it, and keeps what it has
/// where there is none.
pub open spec fn offered<V>(sink: Sink<V>, value: Option<V>) -> Sink<V> {
    match sink {
        Sink::Unregistered => sink,
        Sink::Registered(_) => match value {
            Some(v) => Sink::Registered(Some(v)),
            None => sink,
        },
    }
}

fn offer<V>(sink: Sink<V>, value: Option<V>) -> (r: Sink<V>)
    ensures
        r == offered(sink, value),
{
    match (sink, value) {
        (Sink::Registered(_), Some(v)) => Sink::Registered(Some(v)),
        (sink, _) => sink,
    }
}

/// The text of the error on a block that was given up.
pub open spec fn abort_text(now_ms: u64, deadline_ms: u64) -> Seq<char> {
    "synchronous state-root aborted: past slot deadline (now_ms="@ + decimal_text(now_ms as nat)
        + " >= deadline_ms="@ + decimal_text(deadline_ms as nat) + ")"@
}

/// The text of the error on a block that was given up.
pub fn abort_message(now_ms: u64, deadline_ms: u64) -> (r: String)
    ensures
        r@ == abort_text(now_ms, deadline_ms),
{
    let mut msg = String::new();
    msg.append("synchronous state-root aborted: past slot deadline (now_ms=");
    msg.append(decimal(now_ms).as_str());
    msg.append(" >= deadline_ms=");
    msg.append(decimal(deadline_ms).as_str());
    msg.append(")");
    proof {
        assert(msg@ =~= abort_text(now_ms, deadline_ms));
    }
    msg
}

impl<T, U> BscBlockBuilder<T, U> {
    /// A builder that has executed nothing yet.
    pub fn new(
        state_root_sink: Sink<(B256, U)>,
        state_root_deadline_ms: Option<u64>,
        validator_cache_sink: Sink<(Vec<Address>, Vec<VoteAddress>)>,
        turn_length_sink: Sink<u8>,
        shared_ctx: BscExecutionSharedCtx<T>,
    ) -> (r: Self)
        ensures
            r.transactions@ == Seq::<RecoveredTx<T>>::empty(),
            r.precomputed_state_root is None,
            r.state_root_sink == state_root_sink,
            r.state_root_deadline_ms == state_root_deadline_ms,
            r.validator_cache_sink == validator_cache_sink,
            r.turn_length_sink == turn_length_sink,
            r.shared_ctx == shared_ctx,
    {
        BscBlockBuilder {
            transactions: Vec::new(),
            precomputed_state_root: None,
            state_root_sink,
            state_root_deadline_ms,
            validator_cache_sink,
            turn_length_sink,
            shared_ctx,
        }
    }

    /// Hands a state root to the builder, or takes it away.
    pub fn with_precomputed_state_root(self, precomputed: Option<(B256, U)>) -> (r: Self)
        ensures
            r == (BscBlockBuilder { precomputed_state_root: precomputed, ..self }),
    {
        BscBlockBuilder {
            transactions: self.transactions,
            precomputed_state_root: precomputed,
            state_root_sink: self.state_root_sink,
            state_root_deadline_ms: self.state_root_deadline_ms,
            validator_cache_sink: self.validator_cache_sink,
            turn_length_sink: self.turn_length_sink,
            shared_ctx: self.shared_ctx,
        }
    }

    /// A transaction was executed. It becomes part of the block if its changes were committed.
    pub fn on_executed(&mut self, tx: RecoveredTx<T>, committed: bool)
        ensures
            *final(self) == (BscBlockBuilder {
                transactions: final(self).transactions,
                ..*old(self)
            }),
            final(self).transactions@ == if committed {
                old(self).transactions@.push(tx)
            } else {
                old(self).transactions@
            },
    {
        if committed {
            self.transactions.push(tx);
        }
    }

    /// Begins to finish the block: a state root that is handed in now replaces an earlier one.
    pub fn begin_finish(&mut self, state_root_precomputed: Option<(B256, U)>)
        ensures
            *final(self) == (BscBlockBuilder {
                precomputed_state_root: if state_root_precomputed is Some {
                    state_root_precomputed
                } else {
                    old(self).precomputed_state_root
                },
                ..*old(self)
            }),
    {
        if state_root_precomputed.is_some() {
            self.precomputed_state_root = state_root_precomputed;
        }
    }

    /// The state root that was left by the maker of the payload.
    pub open spec fn sunk(self) -> Option<(B256, U)> {
        match self.state_root_sink {
            Sink::Registered(v) => v,
            Sink::Unregistered => None,
        }
    }

    /// The builder after the wait for the state root that is computed in the background.
    pub open spec fn after_wait(self, delivered: Option<(B256, U)>) -> Self {
        match delivered {
            None => self,
            Some(d) => match self.state_root_sink {
                Sink::Registered(_) => BscBlockBuilder {
                    state_root_sink: Sink::Registered(Some(d)),
                    ..self
                },
                Sink::Unregistered => BscBlockBuilder { precomputed_state_root: Some(d), ..self },
            },
        }
    }

    /// Where the state root comes from: from the sink if it is there, else from the builder; else
    /// it has to be computed, as long as there is time.
    pub open spec fn root_choice(self, now_ms: u64) -> RootChoice<U> {
        match (self.sunk(), self.precomputed_state_root) {
            (Some(d), _) => RootChoice::Precomputed(d.0, d.1),
            (None, Some(d)) => RootChoice::Precomputed(d.0, d.1),
            (None, None) => match self.state_root_deadline_ms {
                Some(d) => if now_ms >= d {
                    RootChoice::Abort { now_ms, deadline_ms: d }
                } else {
                    RootChoice::Compute
                },
                None => RootChoice::Compute,
            },
        }
    }

    /// The builder after the state root was chosen: a root that was there is given up.
    pub open spec fn after_choice(self) -> Self {
        match (self.sunk(), self.precomputed_state_root) {
            (Some(_), _) => BscBlockBuilder { state_root_sink: Sink::Registered(None), ..self },
            (None, Some(_)) => BscBlockBuilder { precomputed_state_root: None, ..self },
            (None, None) => self,
        }
    }

    /// How long to wait for the state root that is computed in the background, once execution is
    /// through. `has_handle` says whether one is computed.
    pub fn root_wait(&self, has_handle: bool, now_ms: u64) -> (r: RootWait)
        ensures
            r == if !has_handle {
                RootWait::Skip
            } else {
                match self.state_root_deadline_ms {
                    Some(d) => RootWait::Bounded(
                        if d >= now_ms {
                            (d - now_ms) as u64
                        } else {
                            0
                        },
                    ),
                    None => RootWait::Unbounded,
                }
            },
    {
        if !has_handle {
            return RootWait::Skip;
        }
        match self.state_root_deadline_ms {
            Some(d) => RootWait::Bounded(d.saturating_sub(now_ms)),
            None => RootWait::Unbounded,
        }
    }

    /// The wait is over: a state root that arrived is put where the maker of the payload asked for
    /// it, or with the builder where nobody asked.
    pub fn on_background_root(&mut self, delivered: Option<(B256, U)>)
        ensures
            *final(self) == old(self).after_wait(delivered),
    {
        match delivered {
            Some(d) => {
                let registered = match &self.state_root_sink {
                    Sink::Registered(_) => true,
                    Sink::Unregistered => false,
                };
                if registered {
                    self.state_root_sink = Sink::Registered(Some(d));
                } else {
                    self.precomputed_state_root = Some(d);
                }
            },
            None => {},
        }
    }

    /// Where the state root comes from: from the sink if it is there, else from the builder, each
    /// of which gives it up; else it has to be computed, as long as there is time.
    pub fn choose_root(&mut self, now_ms: u64) -> (r: RootChoice<U>)
        ensures
            r == old(self).root_choice(now_ms),
            *final(self) == old(self).after_choice(),
    {
        let mut sunk: Option<(B256, U)> = None;
        match &mut self.state_root_sink {
            Sink::Registered(v) => {
                sunk = v.take();
            },
            Sink::Unregistered => {},
        }
        match sunk {
            Some((root, updates)) => {
                return RootChoice::Precomputed(root, updates);
            },
            None => {},
        }
        match self.precomputed_state_root.take() {
            Some((root, updates)) => {
                return RootChoice::Precomputed(root, updates);
            },
            None => {},
        }
        match self.state_root_deadline_ms {
            Some(d) => if now_ms >= d {
                RootChoice::Abort { now_ms, deadline_ms: d }
            } else {
                RootChoice::Compute
            },
            None => RootChoice::Compute,
        }
    }

    /// What goes into the block: the transactions that were executed and then the system
    /// transactions, with their senders; and what is left for the maker of the payload.
    pub fn into_parts(self) -> (r: FinishedBuild<T>)
        ensures
            ({
                let all = self.transactions@ + self.shared_ctx.assembled_system_txs@;
                &&& r.transactions@ == txs_of(all)
                &&& r.senders@ == senders_of(all)
                &&& r.user_tx_len == self.transactions@.len()
                &&& r.system_tx_len == self.shared_ctx.assembled_system_txs@.len()
                &&& r.validator_cache_sink == offered(
                    self.validator_cache_sink,
                    self.shared_ctx.current_validators,
                )
                &&& r.turn_length_sink == offered(
                    self.turn_length_sink,
                    self.shared_ctx.turn_length,
                )
            }),
    {
        let ghost all = self.transactions@ + self.shared_ctx.assembled_system_txs@;
        let user_tx_len: usize = self.transactions.len();
        let system_tx_len: usize = self.shared_ctx.assembled_system_txs.len();
        let mut left = self.transactions;
        let mut system = self.shared_ctx.assembled_system_txs;
        left.append(&mut system);
        let mut transactions: Vec<T> = Vec::new();
        let mut senders: Vec<Address> = Vec::new();
        for recovered in it: left
            invariant
                it.seq() == all,
                transactions@ == txs_of(all).take(it.index()),
                senders@ == senders_of(all).take(it.index()),
        {
            proof {
                let n = it.index();
                assert(recovered == all[n]);
                assert(txs_of(all).take(n + 1) =~= txs_of(all).take(n).push(recovered.tx));
                assert(senders_of(all).take(n + 1) =~= senders_of(all).take(n).push(
                    recovered.sender,
                ));
            }
            transactions.push(recovered.tx);
            senders.push(recovered.sender);
        }
        proof {
            assert(txs_of(all).take(all.len() as int) =~= txs_of(all));
            assert(senders_of(all).take(all.len() as int) =~= senders_of(all));
        }
        FinishedBuild {
            transactions,
            senders,
            user_tx_len,
            system_tx_len,
            validator_cache_sink: offer(
                self.validator_cache_sink,
                self.shared_ctx.current_validators,
            ),
            turn_length_sink: offer(self.turn_length_sink, self.shared_ctx.turn_length),
        }
    }
}

/// A state root that arrives from the background is the one that is used, whatever other root there
/// is and whatever time it is.
pub proof fn law_background_root_is_used<T, U>(
    builder: BscBlockBuilder<T, U>,
    root: B256,
    updates: U,
    now_ms: u64,
)
    ensures
        builder.after_wait(Some((root, updates))).root_choice(now_ms) == RootChoice::Precomputed(
            root,
            updates,
        ),
{
}

/// A state root is computed only where none is there and the deadline, if there is one, is not
/// reached; a block is given up only where none is there and it is.
pub proof fn law_no_root_is_computed_late<T, U>(builder: BscBlockBuilder<T, U>, now_ms: u64)
    ensures
        builder.root_choice(now_ms) is Compute <==> builder.sunk() is None
            && builder.precomputed_state_root is None && (builder.state_root_deadline_ms matches
            Some(d) ==> now_ms < d),
        builder.root_choice(now_ms) is Abort <==> builder.sunk() is None
            && builder.precomputed_state_root is None && (builder.state_root_deadline_ms matches
            Some(d) && now_ms >= d),
{
}

/// A root in the sink is used before one that the builder has, and each is given up when it is
/// used: the other one stays, and the sink stays registered.
pub proof fn law_root_is_used_once<T, U>(builder: BscBlockBuilder<T, U>, now_ms: u64)
    ensures
        ({
            let after = builder.after_choice();
            match builder.state_root_sink {
                Sink::Registered(Some(d)) => {
                    &&& builder.root_choice(now_ms) == RootChoice::Precomputed(d.0, d.1)
                    &&& after.state_root_sink == Sink::<(B256, U)>::Registered(None)
                    &&& after.precomputed_state_root == builder.precomputed_state_root
                },
                _ => {
                    &&& after.state_root_sink == builder.state_root_sink
                    &&& after.precomputed_state_root is None
                    &&& (builder.precomputed_state_root matches Some(d) ==> builder.root_choice(
                        now_ms,
                    ) == RootChoice::Precomputed(d.0, d.1))
                },
            }
        }),
        builder.after_choice().transactions == builder.transactions,
        builder.after_choice().shared_ctx == builder.shared_ctx,
        builder.after_choice().state_root_deadline_ms == builder.state_root_deadline_ms,
{
}

/// A root that is delivered stays in the sink where there is one, and with the builder where there
/// is none; where nothing is delivered, nothing changes.
pub proof fn law_delivered_root_is_kept<T, U>(builder: BscBlockBuilder<T, U>, root: (B256, U))
    ensures
        builder.after_wait(None) == builder,
        builder.state_root_sink is Registered ==> builder.after_wait(Some(root)).state_root_sink
            == Sink::Registered(Some(root)) && builder.after_wait(Some(root)).precomputed_state_root
            == builder.precomputed_state_root,
        builder.state_root_sink is Unregistered ==> builder.after_wait(
            Some(root),
        ).precomputed_state_root == Some(root) && builder.after_wait(
            Some(root),
        ).state_root_sink is Unregistered,
{
}

/// A block that is given up says when, and by when a root was needed.
pub proof fn law_abort_names_the_deadline<T, U>(builder: BscBlockBuilder<T, U>, at_ms: u64)
    ensures
        match builder.root_choice(at_ms) {
            RootChoice::Abort { now_ms, deadline_ms } => now_ms == at_ms
                && builder.state_root_deadline_ms == Some(deadline_ms) && at_ms >= deadline_ms,
            _ => true,
        },
{
}

/// The executed transactions come before the system transactions, and each keeps its sender.
pub proof fn law_system_transactions_come_last<T>(
    user: Seq<RecoveredTx<T>>,
    system: Seq<RecoveredTx<T>>,
    i: int,
)
    requires
        0 <= i < user.len() + system.len(),
    ensures
        txs_of(user + system).len() == user.len() + system.len(),
        senders_of(user + system).len() == user.len() + system.len(),
        i < user.len() ==> txs_of(user + system)[i] == user[i].tx && senders_of(user + system)[i]
            == user[i].sender,
        i >= user.len() ==> txs_of(user + system)[i] == system[i - user.len()].tx && senders_of(
            user + system,
        )[i] == system[i - user.len()].sender,
{
}

/// What was read goes to a place that is registered for it, over what was there; where nothing was
/// read or no place is registered, nothing changes.
pub proof fn law_registered_sinks_are_filled<V>(before: Option<V>, value: V)
    ensures
        offered(Sink::Registered(before), Some(value)) == Sink::Registered(Some(value)),
        offered(Sink::Registered(before), None) == Sink::Registered(before),
        offered(Sink::Unregistered, Some(value)) == Sink::<V>::Unregistered,
{
}

} // verus!
