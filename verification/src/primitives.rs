//! Fixed-size byte strings and 256-bit numbers.

use vstd::prelude::*;

verus! {

/// `N` bytes.
#[derive(Clone, Copy, Debug, Eq, Hash)]
pub struct FixedBytes<const N: usize> {
    /// The bytes, the most significant first.
    pub bytes: [u8; N],
}

/// A hash of 32 bytes.
pub type B256 = FixedBytes<32>;

/// An account address.
pub type Address = FixedBytes<20>;

/// A compressed BLS public key.
pub type VoteAddress = FixedBytes<48>;

/// A compressed BLS signature.
pub type VoteSignature = FixedBytes<96>;

impl<const N: usize> View for FixedBytes<N> {
    type V = Seq<u8>;

    open spec fn view(&self) -> Seq<u8> {
        self.bytes@
    }
}

/// Two byte strings are the same value exactly when they hold the same bytes.
pub proof fn lemma_fixed_bytes_eq<const N: usize>(a: FixedBytes<N>, b: FixedBytes<N>)
    ensures
        a == b <==> a@ == b@,
{
    if a@ == b@ {
        assert(a.bytes =~= b.bytes);
    }
}

impl<const N: usize> PartialEq for FixedBytes<N> {
    fn eq(&self, other: &Self) -> (r: bool) {
        let mut i: usize = 0;
        while i < N
            invariant
                i <= N,
                forall|j: int| 0 <= j < i ==> self.bytes@[j] == other.bytes@[j],
            decreases N - i,
        {
            if self.bytes[i] != other.bytes[i] {
                return false;
            }
            i += 1;
        }
        proof {
            assert(self.bytes =~= other.bytes);
        }
        true
    }
}

impl<const N: usize> vstd::std_specs::cmp::PartialEqSpecImpl for FixedBytes<N> {
    open spec fn obeys_eq_spec() -> bool {
        true
    }

    open spec fn eq_spec(&self, other: &Self) -> bool {
        *self == *other
    }
}

/// `a` comes before `b` in the order of the first byte in which they differ.
pub open spec fn bytes_precede(a: Seq<u8>, b: Seq<u8>) -> bool {
    exists|i: int|
        0 <= i < a.len() && i < b.len() && #[trigger] a[i] < b[i] && a.take(i) == b.take(i)
}

/// Of two byte strings at most one comes before the other.
pub proof fn lemma_precedes_one_way(a: Seq<u8>, b: Seq<u8>)
    ensures
        bytes_precede(a, b) ==> !bytes_precede(b, a),
{
    if bytes_precede(a, b) && bytes_precede(b, a) {
        let i = choose|i: int|
            0 <= i < a.len() && i < b.len() && #[trigger] a[i] < b[i] && a.take(i) == b.take(i);
        let j = choose|j: int|
            0 <= j < b.len() && j < a.len() && #[trigger] b[j] < a[j] && b.take(j) == a.take(j);
        if i < j {
            assert(b.take(j)[i] == a.take(j)[i]);
        } else if j < i {
            assert(a.take(i)[j] == b.take(i)[j]);
        }
    }
}

/// What comes before something that comes before a third comes before the third.
pub proof fn lemma_precedes_transitive(a: Seq<u8>, b: Seq<u8>, c: Seq<u8>)
    requires
        bytes_precede(a, b),
        bytes_precede(b, c),
    ensures
        bytes_precede(a, c),
{
    let i = choose|i: int|
        0 <= i < a.len() && i < b.len() && #[trigger] a[i] < b[i] && a.take(i) == b.take(i);
    let j = choose|j: int|
        0 <= j < b.len() && j < c.len() && #[trigger] b[j] < c[j] && b.take(j) == c.take(j);
    let k = if i < j {
        i
    } else {
        j
    };
    if i < j {
        assert(b.take(j)[i] == c.take(j)[i]);
        assert(c.take(i) =~= c.take(j).take(i));
        assert(b.take(i) =~= b.take(j).take(i));
    } else if j < i {
        assert(a.take(i)[j] == b.take(i)[j]);
        assert(a.take(j) =~= a.take(i).take(j));
        assert(b.take(j) =~= b.take(i).take(j));
    }
    assert(a[k] < c[k] && a.take(k) == c.take(k));
}

/// The byte string of `N` zeros.
pub open spec fn zero_bytes<const N: usize>() -> FixedBytes<N> {
    choose|z: FixedBytes<N>| #[trigger] z@ == Seq::new(N as nat, |i: int| 0u8)
}

impl<const N: usize> FixedBytes<N> {
    /// The byte string of `N` zeros.
    pub fn zero() -> (r: Self)
        ensures
            r == zero_bytes::<N>(),
            r@ == Seq::new(N as nat, |i: int| 0u8),
    {
        let r = FixedBytes { bytes: [0u8; N] };
        proof {
            assert(r@ =~= Seq::new(N as nat, |i: int| 0u8));
            lemma_fixed_bytes_eq(r, zero_bytes::<N>());
        }
        r
    }

    /// Whether this byte string comes before `other`.
    pub fn precedes(&self, other: &Self) -> (r: bool)
        ensures
            r == bytes_precede(self@, other@),
    {
        let mut i: usize = 0;
        while i < N
            invariant
                i <= N,
                self@.take(i as int) =~= other@.take(i as int),
            decreases N - i,
        {
            if self.bytes[i] != other.bytes[i] {
                proof {
                    if bytes_precede(self@, other@) {
                        let k = choose|k: int|
                            0 <= k < self@.len() && k < other@.len()
                                && #[trigger] self@[k] < other@[k]
                                && self@.take(k) == other@.take(k);
                        if k < i {
                            assert(self@.take(i as int)[k] == other@.take(i as int)[k]);
                        } else if k > i {
                            assert(self@.take(k)[i as int] == other@.take(k)[i as int]);
                        }
                    }
                }
                return self.bytes[i] < other.bytes[i];
            }
            proof {
                assert(self@.take(i + 1) =~= self@.take(i as int).push(self@[i as int]));
                assert(other@.take(i + 1) =~= other@.take(i as int).push(other@[i as int]));
            }
            i += 1;
        }
        proof {
            assert(self@ =~= other@) by {
                assert(self@.take(N as int) =~= self@);
                assert(other@.take(N as int) =~= other@);
            }
        }
        false
    }
}

/// An unsigned number of 256 bits, as four limbs of 64 bits, the least significant first.
#[derive(Clone, Copy, Debug, PartialEq, Eq, Structural)]
pub struct U256 {
    /// Bits 0 to 63.
    pub limb0: u64,
    /// Bits 64 to 127.
    pub limb1: u64,
    /// Bits 128 to 191.
    pub limb2: u64,
    /// Bits 192 to 255.
    pub limb3: u64,
}

/// Two to the power of 256.
pub open spec fn base256() -> nat {
    0x1_0000_0000_0000_0000_0000_0000_0000_0000_0000_0000_0000_0000_0000_0000_0000_0000nat
}

impl U256 {
    /// The number that the limbs stand for.
    pub open spec fn value(self) -> nat {
        self.limb0 as nat + self.limb1 as nat * 0x1_0000_0000_0000_0000nat + self.limb2 as nat
            * 0x1_0000_0000_0000_0000_0000_0000_0000_0000nat + self.limb3 as nat
            * 0x1_0000_0000_0000_0000_0000_0000_0000_0000_0000_0000_0000_0000nat
    }

    /// Zero.
    pub fn zero() -> (r: U256)
        ensures
            r.value() == 0,
    {
        U256 { limb0: 0, limb1: 0, limb2: 0, limb3: 0 }
    }

    /// A 64-bit number.
    pub fn from_u64(n: u64) -> (r: U256)
        ensures
            r.value() == n,
    {
        U256 { limb0: n, limb1: 0, limb2: 0, limb3: 0 }
    }

    /// A 128-bit number.
    pub fn from_u128(n: u128) -> (r: U256)
        ensures
            r.value() == n,
    {
        let low: u64 = (n % 0x1_0000_0000_0000_0000u128) as u64;
        let high: u64 = (n / 0x1_0000_0000_0000_0000u128) as u64;
        U256 { limb0: low, limb1: high, limb2: 0, limb3: 0 }
    }

    /// Whether this number is less than the other.
    pub fn less_than(&self, other: &U256) -> (r: bool)
        ensures
            r == (self.value() < other.value()),
    {
        if self.limb3 != other.limb3 {
            self.limb3 < other.limb3
        } else if self.limb2 != other.limb2 {
            self.limb2 < other.limb2
        } else if self.limb1 != other.limb1 {
            self.limb1 < other.limb1
        } else {
            self.limb0 < other.limb0
        }
    }

    /// The number where it fits in 64 bits, the largest 64-bit number where it does not.
    pub fn saturating_to_u64(&self) -> (r: u64)
        ensures
            r == if self.value() <= u64::MAX {
                self.value()
            } else {
                u64::MAX as nat
            },
    {
        if self.limb1 != 0 || self.limb2 != 0 || self.limb3 != 0 {
            u64::MAX
        } else {
            self.limb0
        }
    }

    /// `alloy_primitives::U256`'s `+`: the sum modulo two to the power of 256.
    #[verifier::external_body]
    pub(crate) fn plus(self, other: U256) -> (r: U256)
        ensures
            r.value() == (self.value() + other.value()) % base256(),
    {
        let a = alloy_primitives::U256::from_limbs([self.limb0, self.limb1, self.limb2, self.limb3]);
        let b = alloy_primitives::U256::from_limbs([other.limb0, other.limb1, other.limb2, other.limb3]);
        let [limb0, limb1, limb2, limb3] = (a + b).into_limbs();
        U256 { limb0, limb1, limb2, limb3 }
    }

    /// `alloy_primitives::U256`'s `*`: the product modulo two to the power of 256.
    #[verifier::external_body]
    pub(crate) fn times(self, other: U256) -> (r: U256)
        ensures
            r.value() == (self.value() * other.value()) % base256(),
    {
        let a = alloy_primitives::U256::from_limbs([self.limb0, self.limb1, self.limb2, self.limb3]);
        let b = alloy_primitives::U256::from_limbs([other.limb0, other.limb1, other.limb2, other.limb3]);
        let [limb0, limb1, limb2, limb3] = (a * b).into_limbs();
        U256 { limb0, limb1, limb2, limb3 }
    }
}

/// Whether two slices hold the same bytes.
pub fn bytes_equal(a: &[u8], b: &[u8]) -> (r: bool)
    ensures
        r == (a@ == b@),
{
    if a.len() != b.len() {
        return false;
    }
    let mut i: usize = 0;
    while i < a.len()
        invariant
            i <= a@.len(),
            a@.len() == b@.len(),
            forall|j: int| 0 <= j < i ==> a@[j] == b@[j],
        decreases a@.len() - i,
    {
        if a[i] != b[i] {
            return false;
        }
        i += 1;
    }
    proof {
        assert(a@ =~= b@);
    }
    true
}

/// The bytes of a slice as a vector.
pub fn to_vec(a: &[u8]) -> (r: Vec<u8>)
    ensures
        r@ == a@,
{
    let mut r: Vec<u8> = Vec::new();
    let mut i: usize = 0;
    while i < a.len()
        invariant
            i <= a@.len(),
            r@ == a@.take(i as int),
        decreases a@.len() - i,
    {
        r.push(a[i]);
        proof {
            assert(a@.take(i + 1) =~= a@.take(i as int).push(a@[i as int]));
        }
        i += 1;
    }
    proof {
        assert(a@.take(i as int) =~= a@);
    }
    r
}

} // verus!
