use vstd::prelude::*;
use crate::digest::Digest;

verus! {

/// A deterministic keyed hash over grid coordinates.
///
/// The oracle is an external collaborator of the scanner, specified only by
/// its contract: `digest_spec` is the mathematical value of the digest for a
/// cell and a key, and the executable `digest` must agree with it. The
/// scanner treats the oracle as a black box; everything it proves about a
/// scan is stated over `digest_spec`.
pub trait HashOracle {
    /// The digest the oracle assigns to cell `(x, y)` under `key`.
    spec fn digest_spec(&self, x: int, y: int, key: int) -> u128;

    /// Compute the digest for one cell.
    fn digest(&self, x: i64, y: i64, key: u32) -> (d: Digest)
        ensures
            d.value == self.digest_spec(x as int, y as int, key as int),
    ;
}

/// A deterministic mapping from a rarity class to a digest cutoff.
///
/// Like the hash oracle, the policy is injected: the scanner calls it exactly
/// once per request and treats the result as an opaque numeric bound.
pub trait ThresholdPolicy {
    /// The cutoff the policy assigns to `rarity`.
    spec fn threshold_spec(&self, rarity: int) -> u128;

    /// Compute the cutoff for one rarity class.
    fn threshold(&self, rarity: u32) -> (t: Digest)
        ensures
            t.value == self.threshold_spec(rarity as int),
    ;
}

/// One fixed digest assignment of a [`TableOracle`].
#[derive(Clone, Copy, PartialEq, Eq, Structural, Debug)]
pub struct TableEntry {
    pub x: i64,
    pub y: i64,
    pub key: u32,
    pub digest: u128,
}

/// A stub hash oracle driven by an explicit table.
///
/// The digest of a cell is the first table entry that matches cell and key,
/// or `default_digest` when none does. It stands in for a production oracle
/// in tests and demonstrations: deterministic by construction.
pub struct TableOracle {
    pub entries: Vec<TableEntry>,
    pub default_digest: u128,
}

/// First-match lookup over a table of digest assignments.
pub open spec fn table_lookup(entries: Seq<TableEntry>, x: int, y: int, key: int, default: u128) -> u128
    decreases entries.len(),
{
    if entries.len() == 0 {
        default
    } else if entries[0].x == x && entries[0].y == y && entries[0].key == key {
        entries[0].digest
    } else {
        table_lookup(entries.drop_first(), x, y, key, default)
    }
}

impl HashOracle for TableOracle {
    open spec fn digest_spec(&self, x: int, y: int, key: int) -> u128 {
        table_lookup(self.entries@, x, y, key, self.default_digest)
    }

    fn digest(&self, x: i64, y: i64, key: u32) -> (d: Digest) {
        let n: usize = self.entries.len();
        let mut i: usize = 0;
        proof {
            assert(self.entries@.skip(0) =~= self.entries@);
        }
        while i < n
            invariant
                i <= n,
                n == self.entries@.len(),
                table_lookup(self.entries@.skip(i as int), x as int, y as int, key as int, self.default_digest)
                    == table_lookup(self.entries@, x as int, y as int, key as int, self.default_digest),
            decreases n - i,
        {
            let e = self.entries[i];
            proof {
                assert(self.entries@.skip(i as int)[0] == self.entries@[i as int]);
                assert(self.entries@.skip(i as int).drop_first() =~= self.entries@.skip(i as int + 1));
            }
            if e.x == x && e.y == y && e.key == key {
                return Digest { value: e.digest };
            }
            i = i + 1;
        }
        proof {
            assert(self.entries@.skip(n as int).len() == 0);
        }
        Digest { value: self.default_digest }
    }
}

/// A stub threshold policy: the cutoff is `scale` divided by the rarity
/// class, with rarity zero mapped to the whole `scale`.
///
/// A larger rarity class yields a smaller (more exclusive) cutoff.
pub struct InversePolicy {
    pub scale: u128,
}

impl ThresholdPolicy for InversePolicy {
    open spec fn threshold_spec(&self, rarity: int) -> u128 {
        if rarity <= 0 {
            self.scale
        } else {
            (self.scale as int / rarity) as u128
        }
    }

    fn threshold(&self, rarity: u32) -> (t: Digest) {
        if rarity == 0 {
            Digest { value: self.scale }
        } else {
            Digest { value: self.scale / (rarity as u128) }
        }
    }
}

} // verus!
