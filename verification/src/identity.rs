//! Clock identities and port identities.
//!
//! A PTP clock is identified by eight raw bytes, ordered byte-wise.  The
//! byte-wise lexicographic order is the final tiebreaker of the BMCA
//! comparison cascade, so this module also proves that the order agrees
//! with the numeric order of the identity read as a big-endian integer.

use vstd::prelude::*;

verus! {

/// 8-byte PTP clock identity, compared byte-wise.
#[derive(Clone, Copy, Debug, PartialEq, Eq, Default)]
pub struct ClockIdentity {
    pub clock_id: [u8; 8],
}

/// The identity's value read as a big-endian 64-bit integer.  Byte-wise
/// lexicographic order on the eight bytes coincides with the numeric
/// order of this value.
pub open spec fn id_value(s: Seq<u8>) -> int {
    s[0] * 0x100000000000000 + s[1] * 0x1000000000000 + s[2] * 0x10000000000
        + s[3] * 0x100000000 + s[4] * 0x1000000 + s[5] * 0x10000 + s[6] * 0x100 + s[7]
}

impl ClockIdentity {
    pub open spec fn value(self) -> int {
        id_value(self.clock_id@)
    }

    pub fn new(clock_id: [u8; 8]) -> (r: ClockIdentity)
        ensures
            r.clock_id == clock_id,
    {
        ClockIdentity { clock_id }
    }

    /// The six bytes looked up in an OUI vendor table: the first three
    /// and the last three bytes of the identity (the middle two bytes
    /// are the 0xFF/0xFE filler of an EUI-64 derived identity).
    pub fn vendor_prefix(&self) -> (r: [u8; 6])
        ensures
            r@ == seq![
                self.clock_id@[0],
                self.clock_id@[1],
                self.clock_id@[2],
                self.clock_id@[5],
                self.clock_id@[6],
                self.clock_id@[7],
            ],
    {
        let r = [
            self.clock_id[0],
            self.clock_id[1],
            self.clock_id[2],
            self.clock_id[5],
            self.clock_id[6],
            self.clock_id[7],
        ];
        proof {
            assert(r@ =~= seq![
                self.clock_id@[0],
                self.clock_id@[1],
                self.clock_id@[2],
                self.clock_id@[5],
                self.clock_id@[6],
                self.clock_id@[7],
            ]);
        }
        r
    }

    /// Byte-wise three-way comparison; the result mirrors the numeric
    /// order of the big-endian value of the eight bytes.
    pub fn cmp_bytes(&self, other: &ClockIdentity) -> (r: core::cmp::Ordering)
        ensures
            r == core::cmp::Ordering::Less <==> self.value() < other.value(),
            r == core::cmp::Ordering::Greater <==> self.value() > other.value(),
            r == core::cmp::Ordering::Equal <==> self.value() == other.value(),
    {
        let mut i: usize = 0;
        while i < 8
            invariant
                i <= 8,
                forall|j: int| 0 <= j < i ==> self.clock_id@[j] == other.clock_id@[j],
            decreases 8 - i,
        {
            if self.clock_id[i] < other.clock_id[i] {
                proof {
                    lemma_id_prefix_lt(self.clock_id@, other.clock_id@, i as int);
                }
                return core::cmp::Ordering::Less;
            }
            if self.clock_id[i] > other.clock_id[i] {
                proof {
                    lemma_id_prefix_lt(other.clock_id@, self.clock_id@, i as int);
                }
                return core::cmp::Ordering::Greater;
            }
            i = i + 1;
        }
        core::cmp::Ordering::Equal
    }
}

/// If two identities agree on a prefix and differ at position `k`, the
/// one with the smaller byte at `k` has the smaller big-endian value.
proof fn lemma_id_prefix_lt(a: Seq<u8>, b: Seq<u8>, k: int)
    requires
        a.len() == 8,
        b.len() == 8,
        0 <= k < 8,
        forall|j: int| 0 <= j < k ==> a[j] == b[j],
        a[k] < b[k],
    ensures
        id_value(a) < id_value(b),
{
}

/// Distinct 8-byte identities have distinct big-endian values: the
/// bytes are the base-256 digits of the value.
pub proof fn lemma_id_value_injective(a: Seq<u8>, b: Seq<u8>)
    requires
        a.len() == 8,
        b.len() == 8,
        a != b,
    ensures
        id_value(a) != id_value(b),
{
    lemma_id_value_injective_from(a, b, 0);
}

proof fn lemma_id_value_injective_from(a: Seq<u8>, b: Seq<u8>, i: int)
    requires
        a.len() == 8,
        b.len() == 8,
        a != b,
        0 <= i <= 8,
        forall|j: int| 0 <= j < i ==> a[j] == b[j],
    ensures
        id_value(a) != id_value(b),
    decreases 8 - i,
{
    if i == 8 {
        assert(a =~= b);
    } else if a[i] == b[i] {
        lemma_id_value_injective_from(a, b, i + 1);
    } else if a[i] < b[i] {
        lemma_id_prefix_lt(a, b, i);
    } else {
        lemma_id_prefix_lt(b, a, i);
    }
}

/// A source or requesting port: a clock identity plus a port number.
#[derive(Clone, Copy, Debug, PartialEq, Eq)]
pub struct PortIdentity {
    pub clock_identity: ClockIdentity,
    pub port_number: u16,
}

} // verus!
