use crate::mapping::{MappingModel, UrlError};
use vstd::prelude::*;

verus! {

/// Below this remaining lifetime, a mutating operation renews the store
/// entry's lifetime (host ledger units).
pub const TTL_THRESHOLD: u64 = 100000;

/// The lifetime a renewal extends the store entry to (host ledger units).
pub const TTL_EXTEND_TO: u64 = 100000;

/// The abstract state of the registry: the stored mappings keyed by short
/// code, the aggregate count of mappings ever created, and the remaining
/// storage lifetime of the registry's store entries.
#[verifier::ext_equal]
pub ghost struct RegistryModel {
    pub mappings: Map<Seq<char>, MappingModel>,
    pub total: nat,
    pub ttl: u64,
}

impl RegistryModel {
    /// The state before any operation: no mappings, a zero counter, and no
    /// storage lifetime granted yet.
    pub open spec fn init() -> RegistryModel {
        RegistryModel { mappings: Map::<Seq<char>, MappingModel>::empty(), total: 0, ttl: 0 }
    }
}

/// The storage-lifetime policy every mutating operation applies: a lifetime
/// that has fallen below the threshold is extended back to the fixed window,
/// and a longer one is left alone.
pub open spec fn renewed_ttl(ttl: u64) -> u64 {
    if ttl < TTL_THRESHOLD {
        TTL_EXTEND_TO
    } else {
        ttl
    }
}

/// The mapping a successful creation stores: the given code, target and
/// creator, stamped with the current time and no recorded accesses.
pub open spec fn fresh_mapping(
    short_code: Seq<char>,
    original_url: Seq<char>,
    creator: Seq<char>,
    now: u64,
) -> MappingModel {
    MappingModel {
        short_code: short_code,
        original_url: original_url,
        creator: creator,
        created_at: now,
        click_count: 0,
    }
}

/// Whether a creation request is accepted, and if not, why. Authorization is
/// checked first: an unauthorized caller is refused whether or not the short
/// code is in use; an authorized one is refused exactly when the code is
/// already bound.
pub open spec fn create_outcome(
    s: RegistryModel,
    short_code: Seq<char>,
    authorized: bool,
) -> Result<(), UrlError> {
    if !authorized {
        Err(UrlError::Unauthorized)
    } else if s.mappings.contains_key(short_code) {
        Err(UrlError::DuplicateShortCode)
    } else {
        Ok(())
    }
}

/// The state after a creation request: an accepted request stores the fresh
/// mapping, counts it, and renews the storage lifetime; a refused one changes
/// nothing.
pub open spec fn create_step(
    s: RegistryModel,
    short_code: Seq<char>,
    original_url: Seq<char>,
    creator: Seq<char>,
    authorized: bool,
    now: u64,
) -> RegistryModel {
    if create_outcome(s, short_code, authorized) is Ok {
        RegistryModel {
            mappings: s.mappings.insert(
                short_code,
                fresh_mapping(short_code, original_url, creator, now),
            ),
            total: s.total + 1,
            ttl: renewed_ttl(s.ttl),
        }
    } else {
        s
    }
}

/// A mapping with one more recorded access; the counter saturates at the
/// numeric limit instead of wrapping.
pub open spec fn bumped(m: MappingModel) -> MappingModel {
    MappingModel {
        short_code: m.short_code,
        original_url: m.original_url,
        creator: m.creator,
        created_at: m.created_at,
        click_count: if m.click_count < u64::MAX {
            (m.click_count + 1) as u64
        } else {
            u64::MAX
        },
    }
}

/// The state after a resolution request: resolving a bound code records the
/// access and renews the storage lifetime; resolving an unknown one changes
/// nothing.
pub open spec fn resolve_step(s: RegistryModel, short_code: Seq<char>) -> RegistryModel {
    if s.mappings.contains_key(short_code) {
        RegistryModel {
            mappings: s.mappings.insert(short_code, bumped(s.mappings[short_code])),
            total: s.total,
            ttl: renewed_ttl(s.ttl),
        }
    } else {
        s
    }
}

} // verus!
