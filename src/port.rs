//! Development-server ports derived from a branch name.
use vstd::prelude::*;

verus! {

/// Ports for the services of one worktree.
pub struct PortAllocation {
    pub frontend: u16,
    pub backend: u16,
    pub postgres: u16,
}

/// Each service's base port, moved by one offset between 1 and 1000 taken
/// from the hash.
pub open spec fn ports_for_hash(hash: u64) -> PortAllocation {
    let offset = (hash % 1000 + 1) as u16;
    PortAllocation {
        frontend: (5173 + offset) as u16,
        backend: (8080 + offset) as u16,
        postgres: (5432 + offset) as u16,
    }
}

/// Relies on std's `DefaultHasher`, seeded by `DefaultHasher::new`, over the
/// name's `Hash` impl. Its algorithm may change between Rust releases, so
/// nothing is stated of the value.
#[verifier::external_body]
fn branch_hash(name: &str) -> u64 {
    let mut hasher = std::collections::hash_map::DefaultHasher::new();
    std::hash::Hash::hash(name, &mut hasher);
    std::hash::Hasher::finish(&hasher)
}

/// The ports for a given hash of a branch name.
pub fn ports_from_hash(hash: u64) -> (r: PortAllocation)
    ensures
        r == ports_for_hash(hash),
{
    let offset = (hash % 1000 + 1) as u16;
    PortAllocation { frontend: 5173 + offset, backend: 8080 + offset, postgres: 5432 + offset }
}

/// The ports for a branch: every service moved by the same offset, taken
/// from a hash of the name.
pub fn calculate_ports(branch_name: &str) -> (r: PortAllocation)
    ensures
        exists|h: u64| r == ports_for_hash(h),
        1 <= r.frontend - 5173 <= 1000,
        r.backend - 8080 == r.frontend - 5173,
        r.postgres - 5432 == r.frontend - 5173,
{
    let h = branch_hash(branch_name);
    ports_from_hash(h)
}

} // verus!
