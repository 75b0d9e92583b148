//! What the parts of the node share: slots that are filled once.

use crate::miner::PeerId;
use crate::primitives::zero_bytes;
use crate::primitives::B256;
use vstd::prelude::*;

verus! {

/// What a slot holds after a value was offered to it, and what became of the value: an empty slot
/// takes it, a full one hands it back.
pub open spec fn filled<T>(before: Option<T>, value: T) -> (Option<T>, Result<(), T>) {
    match before {
        None => (Some(value), Ok(())),
        Some(_) => (before, Err(value)),
    }
}

/// A slot that is filled at most once.
#[derive(Debug)]
pub struct OnceSlot<T> {
    value: Option<T>,
}

impl<T> OnceSlot<T> {
    /// What the slot holds.
    pub closed spec fn view(&self) -> Option<T> {
        self.value
    }

    /// An empty slot.
    pub fn new() -> (r: Self)
        ensures
            r@ is None,
    {
        OnceSlot { value: None }
    }

    /// Fills the slot; a value that comes too late is handed back.
    pub fn set(&mut self, value: T) -> (r: Result<(), T>)
        ensures
            (final(self)@, r) == filled(old(self)@, value),
    {
        if self.value.is_some() {
            return Err(value);
        }
        self.value = Some(value);
        Ok(())
    }

    /// What the slot holds.
    pub fn get(&self) -> (r: Option<&T>)
        ensures
            match self@ {
                Some(v) => r == Some(&v),
                None => r is None,
            },
    {
        self.value.as_ref()
    }
}

/// What the parts of the node share. The snapshot provider, the consensus, the readers of headers
/// by hash and by number and the channel to the import service are of types that the node picks.
#[derive(Debug)]
pub struct Shared<S, C, H, N, I> {
    /// The snapshot provider.
    pub snapshot_provider: OnceSlot<S>,
    /// The consensus.
    pub bsc_consensus: OnceSlot<C>,
    /// The reader of headers by hash.
    pub header_by_hash: OnceSlot<H>,
    /// The reader of headers by number.
    pub header_by_number: OnceSlot<N>,
    /// The channel to the import service.
    pub block_import_sender: OnceSlot<I>,
    /// The identity of this node among its peers.
    pub local_peer_id: OnceSlot<PeerId>,
}

/// Which reader of headers was there before.
#[derive(Clone, Copy, Debug, PartialEq, Eq, Structural)]
pub enum HeaderProviderError {
    /// That by hash.
    HashProvider,
    /// That by number.
    NumberProvider,
}

impl HeaderProviderError {
    /// The error in words.
    pub fn message(self) -> (r: &'static str)
        ensures
            r@ == match self {
                HeaderProviderError::HashProvider => "Failed to set hash provider"@,
                HeaderProviderError::NumberProvider => "Failed to set number provider"@,
            },
    {
        match self {
            HeaderProviderError::HashProvider => "Failed to set hash provider",
            HeaderProviderError::NumberProvider => "Failed to set number provider",
        }
    }
}

impl<S, C, H, N, I> Shared<S, C, H, N, I> {
    /// Nothing is there yet.
    pub fn new() -> (r: Self)
        ensures
            r.snapshot_provider@ is None,
            r.bsc_consensus@ is None,
            r.header_by_hash@ is None,
            r.header_by_number@ is None,
            r.block_import_sender@ is None,
            r.local_peer_id@ is None,
    {
        Shared {
            snapshot_provider: OnceSlot::new(),
            bsc_consensus: OnceSlot::new(),
            header_by_hash: OnceSlot::new(),
            header_by_number: OnceSlot::new(),
            block_import_sender: OnceSlot::new(),
            local_peer_id: OnceSlot::new(),
        }
    }
}

/// Sets the snapshot provider; one that comes too late is handed back.
pub fn set_snapshot_provider<S, C, H, N, I>(
    shared: &mut Shared<S, C, H, N, I>,
    provider: S,
) -> (r: Result<(), S>)
    ensures
        (final(shared).snapshot_provider@, r) == filled(old(shared).snapshot_provider@, provider),
        final(shared).bsc_consensus == old(shared).bsc_consensus,
        final(shared).header_by_hash == old(shared).header_by_hash,
        final(shared).header_by_number == old(shared).header_by_number,
        final(shared).block_import_sender == old(shared).block_import_sender,
        final(shared).local_peer_id == old(shared).local_peer_id,
{
    shared.snapshot_provider.set(provider)
}

/// The snapshot provider, where it was set.
pub fn get_snapshot_provider<S, C, H, N, I>(shared: &Shared<S, C, H, N, I>) -> (r: Option<&S>)
    ensures
        match shared.snapshot_provider@ {
            Some(v) => r == Some(&v),
            None => r is None,
        },
{
    shared.snapshot_provider.get()
}

/// Sets the consensus; one that comes too late is handed back.
pub fn set_bsc_consensus<S, C, H, N, I>(
    shared: &mut Shared<S, C, H, N, I>,
    consensus: C,
) -> (r: Result<(), C>)
    ensures
        (final(shared).bsc_consensus@, r) == filled(old(shared).bsc_consensus@, consensus),
        final(shared).snapshot_provider == old(shared).snapshot_provider,
        final(shared).header_by_hash == old(shared).header_by_hash,
        final(shared).header_by_number == old(shared).header_by_number,
        final(shared).block_import_sender == old(shared).block_import_sender,
        final(shared).local_peer_id == old(shared).local_peer_id,
{
    shared.bsc_consensus.set(consensus)
}

/// The consensus, where it was set.
pub fn get_bsc_consensus<S, C, H, N, I>(shared: &Shared<S, C, H, N, I>) -> (r: Option<&C>)
    ensures
        match shared.bsc_consensus@ {
            Some(v) => r == Some(&v),
            None => r is None,
        },
{
    shared.bsc_consensus.get()
}

/// Sets both readers of headers: that by hash first, and that by number only if the first was not
/// there before.
pub fn set_header_provider<S, C, H, N, I>(
    shared: &mut Shared<S, C, H, N, I>,
    by_hash: H,
    by_number: N,
) -> (r: Result<(), HeaderProviderError>)
    ensures
        final(shared).snapshot_provider == old(shared).snapshot_provider,
        final(shared).bsc_consensus == old(shared).bsc_consensus,
        final(shared).block_import_sender == old(shared).block_import_sender,
        final(shared).local_peer_id == old(shared).local_peer_id,
        match (old(shared).header_by_hash@, old(shared).header_by_number@) {
            (Some(_), _) => {
                &&& r == Err::<(), HeaderProviderError>(HeaderProviderError::HashProvider)
                &&& final(shared).header_by_hash@ == old(shared).header_by_hash@
                &&& final(shared).header_by_number@ == old(shared).header_by_number@
            },
            (None, Some(_)) => {
                &&& r == Err::<(), HeaderProviderError>(HeaderProviderError::NumberProvider)
                &&& final(shared).header_by_hash@ == Some(by_hash)
                &&& final(shared).header_by_number@ == old(shared).header_by_number@
            },
            (None, None) => {
                &&& r is Ok
                &&& final(shared).header_by_hash@ == Some(by_hash)
                &&& final(shared).header_by_number@ == Some(by_number)
            },
        },
{
    match shared.header_by_hash.set(by_hash) {
        Ok(()) => {},
        Err(_) => {
            return Err(HeaderProviderError::HashProvider);
        },
    }
    match shared.header_by_number.set(by_number) {
        Ok(()) => Ok(()),
        Err(_) => Err(HeaderProviderError::NumberProvider),
    }
}

/// The reader of headers by hash, where it was set.
pub fn get_header_by_hash_provider<S, C, H, N, I>(shared: &Shared<S, C, H, N, I>) -> (r: Option<&H>)
    ensures
        match shared.header_by_hash@ {
            Some(v) => r == Some(&v),
            None => r is None,
        },
{
    shared.header_by_hash.get()
}

/// The reader of headers by number, where it was set.
pub fn get_header_by_number_provider<S, C, H, N, I>(shared: &Shared<S, C, H, N, I>) -> (r: Option<&N>)
    ensures
        match shared.header_by_number@ {
            Some(v) => r == Some(&v),
            None => r is None,
        },
{
    shared.header_by_number.get()
}

/// What the reader of headers by hash says; nothing where there is no reader.
pub fn get_header_by_hash_from_provider<S, C, H, N, I, T>(
    shared: &Shared<S, C, H, N, I>,
    block_hash: &B256,
) -> (r: Option<T>) where
    H: Fn(&B256) -> Option<T>,

    requires
        shared.header_by_hash@ matches Some(reader) ==> call_requires(reader, (block_hash,)),
    ensures
        match shared.header_by_hash@ {
            Some(reader) => call_ensures(reader, (block_hash,), r),
            None => r is None,
        },
{
    match shared.header_by_hash.get() {
        Some(reader) => reader(block_hash),
        None => None,
    }
}

/// What the reader of headers by number says; nothing where there is no reader.
pub fn get_header_by_number_from_provider<S, C, H, N, I, T>(
    shared: &Shared<S, C, H, N, I>,
    block_number: u64,
) -> (r: Option<T>) where
    N: Fn(u64) -> Option<T>,

    requires
        shared.header_by_number@ matches Some(reader) ==> call_requires(reader, (block_number,)),
    ensures
        match shared.header_by_number@ {
            Some(reader) => call_ensures(reader, (block_number,), r),
            None => r is None,
        },
{
    match shared.header_by_number.get() {
        Some(reader) => reader(block_number),
        None => None,
    }
}

/// The header with a hash.
pub fn get_header_by_hash<S, C, H, N, I, T>(
    shared: &Shared<S, C, H, N, I>,
    block_hash: &B256,
) -> (r: Option<T>) where
    H: Fn(&B256) -> Option<T>,

    requires
        shared.header_by_hash@ matches Some(reader) ==> call_requires(reader, (block_hash,)),
    ensures
        match shared.header_by_hash@ {
            Some(reader) => call_ensures(reader, (block_hash,), r),
            None => r is None,
        },
{
    get_header_by_hash_from_provider(shared, block_hash)
}

/// The header with a number.
pub fn get_header_by_number<S, C, H, N, I, T>(
    shared: &Shared<S, C, H, N, I>,
    block_number: u64,
) -> (r: Option<T>) where
    N: Fn(u64) -> Option<T>,

    requires
        shared.header_by_number@ matches Some(reader) ==> call_requires(reader, (block_number,)),
    ensures
        match shared.header_by_number@ {
            Some(reader) => call_ensures(reader, (block_number,), r),
            None => r is None,
        },
{
    get_header_by_number_from_provider(shared, block_number)
}

/// Sets the channel to the import service; one that comes too late is handed back.
pub fn set_block_import_sender<S, C, H, N, I>(
    shared: &mut Shared<S, C, H, N, I>,
    sender: I,
) -> (r: Result<(), I>)
    ensures
        (final(shared).block_import_sender@, r) == filled(old(shared).block_import_sender@, sender),
        final(shared).snapshot_provider == old(shared).snapshot_provider,
        final(shared).bsc_consensus == old(shared).bsc_consensus,
        final(shared).header_by_hash == old(shared).header_by_hash,
        final(shared).header_by_number == old(shared).header_by_number,
        final(shared).local_peer_id == old(shared).local_peer_id,
{
    shared.block_import_sender.set(sender)
}

/// The channel to the import service, where it was set.
pub fn get_block_import_sender<S, C, H, N, I>(shared: &Shared<S, C, H, N, I>) -> (r: Option<&I>)
    ensures
        match shared.block_import_sender@ {
            Some(v) => r == Some(&v),
            None => r is None,
        },
{
    shared.block_import_sender.get()
}

/// Sets the identity of this node among its peers; one that comes too late is handed back.
pub fn set_local_peer_id<S, C, H, N, I>(
    shared: &mut Shared<S, C, H, N, I>,
    peer_id: PeerId,
) -> (r: Result<(), PeerId>)
    ensures
        (final(shared).local_peer_id@, r) == filled(old(shared).local_peer_id@, peer_id),
        final(shared).snapshot_provider == old(shared).snapshot_provider,
        final(shared).bsc_consensus == old(shared).bsc_consensus,
        final(shared).header_by_hash == old(shared).header_by_hash,
        final(shared).header_by_number == old(shared).header_by_number,
        final(shared).block_import_sender == old(shared).block_import_sender,
{
    shared.local_peer_id.set(peer_id)
}

/// The identity of this node among its peers; zeros where it is not known.
pub fn get_local_peer_id_or_default<S, C, H, N, I>(shared: &Shared<S, C, H, N, I>) -> (r: PeerId)
    ensures
        r == match shared.local_peer_id@ {
            Some(id) => id,
            None => zero_bytes::<64>(),
        },
{
    match shared.local_peer_id.get() {
        Some(id) => *id,
        None => PeerId::zero(),
    }
}

/// A header that a provider found; nothing where it found none or failed.
pub fn found_header<T, E>(answer: Result<Option<T>, E>) -> (r: Option<T>)
    ensures
        r == match answer {
            Ok(found) => found,
            Err(_) => None,
        },
{
    match answer {
        Ok(found) => found,
        Err(_) => None,
    }
}

/// What a slot was filled with stays there: the second value is handed back, and the first is
/// still read.
pub proof fn law_slot_is_filled_once<T>(first: T, second: T)
    ensures
        filled(None, first).1 is Ok,
        filled(filled(None, first).0, second) == (Some(first), Err::<(), T>(second)),
{
}

} // verus!
