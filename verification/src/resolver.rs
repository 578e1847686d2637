//! The metadata resolver's outcome logic: one tagged outcome per queried
//! address, and the whole-batch failure when the service cannot be reached.
//!
//! The queries themselves are network calls made outside the library; the
//! functions here turn what came back into exactly one outcome per address.

use vstd::prelude::*;
use crate::records::ContractInfoDef;

verus! {

/// Why the resolution of one contract address yielded no metadata.
#[derive(Clone, Debug, PartialEq)]
pub enum ResolveError {
    /// The service answered, but knows no metadata for this address.
    /// Absent metadata is a resolution failure, not valid data.
    NotFound,
    /// The service rejected or failed the query for this address;
    /// the transport's message is carried along.
    QueryFailed(String),
    /// The service could not be reached at all, so the whole batch
    /// failed at once with this connection message.
    Unreachable(String),
}

/// What one metadata query reported for one address, as handed back by the
/// caller that performed the network call.
pub enum MetadataOutcome {
    /// The query returned a metadata record.
    Found(ContractInfoDef),
    /// The query succeeded but reported no metadata for the address.
    Missing,
    /// The query itself failed; the transport's message.
    Failed(String),
}

/// How one query report maps to the outcome recorded for its address.
pub open spec fn outcome_resolved(
    o: MetadataOutcome,
    r: Result<ContractInfoDef, ResolveError>,
) -> bool {
    match o {
        MetadataOutcome::Found(info) => r matches Ok(i) && i@ == info@,
        MetadataOutcome::Missing => r matches Err(ResolveError::NotFound),
        MetadataOutcome::Failed(msg) => r matches Err(ResolveError::QueryFailed(m)) && m@
            == msg@,
    }
}

/// Records the outcome of one address's query: metadata on success, a
/// tagged error when the service knew nothing or failed the query.
pub fn resolve_outcome(outcome: MetadataOutcome) -> (r: Result<ContractInfoDef, ResolveError>)
    ensures
        outcome_resolved(outcome, r),
{
    match outcome {
        MetadataOutcome::Found(info) => Ok(info),
        MetadataOutcome::Missing => Err(ResolveError::NotFound),
        MetadataOutcome::Failed(msg) => Err(ResolveError::QueryFailed(msg)),
    }
}

/// The batch-level failure when the metadata service is unreachable: every
/// address of the batch receives the same connection-failure outcome, and
/// none is attempted individually.
pub fn unreachable_batch(n: usize, message: &String) -> (r: Vec<
    Result<ContractInfoDef, ResolveError>,
>)
    ensures
        r@.len() == n,
        forall|i: int|
            0 <= i < n ==> ((#[trigger] r@[i]) matches Err(ResolveError::Unreachable(m)) && m@
                == message@),
{
    let mut out: Vec<Result<ContractInfoDef, ResolveError>> = Vec::new();
    let mut i: usize = 0;
    while i < n
        invariant
            i <= n,
            out@.len() == i,
            forall|k: int|
                0 <= k < i ==> ((#[trigger] out@[k]) matches Err(ResolveError::Unreachable(m))
                    && m@ == message@),
        decreases n - i,
    {
        out.push(Err(ResolveError::Unreachable(message.clone())));
        i += 1;
    }
    out
}

/// Turns a batch's query reports into exactly one outcome per address, in
/// order: the reports of the individual queries when a connection was made,
/// or the same connection failure for every address when none was.
pub fn batch_contract_results(
    n: usize,
    fetched: Result<Vec<MetadataOutcome>, String>,
) -> (r: Vec<Result<ContractInfoDef, ResolveError>>)
    requires
        fetched matches Ok(v) ==> v@.len() == n,
    ensures
        r@.len() == n,
        fetched matches Ok(v) ==> forall|i: int|
            0 <= i < n ==> outcome_resolved(v[i], #[trigger] r@[i]),
        fetched matches Err(msg) ==> forall|i: int|
            0 <= i < n ==> ((#[trigger] r@[i]) matches Err(ResolveError::Unreachable(m)) && m@
                == msg@),
{
    match fetched {
        Ok(outcomes) => {
            let mut out: Vec<Result<ContractInfoDef, ResolveError>> = Vec::new();
            let mut rest = outcomes;
            proof {
                assert(rest@.skip(0) =~= rest@);
            }
            let ghost all = rest@;
            while rest.len() > 0
                invariant
                    all.len() == n,
                    out@.len() + rest@.len() == n,
                    rest@ == all.skip(out@.len() as int),
                    forall|k: int|
                        0 <= k < out@.len() ==> outcome_resolved(all[k], #[trigger] out@[k]),
                decreases rest@.len(),
            {
                let ghost m = out@.len() as int;
                let next = rest.remove(0);
                proof {
                    assert(next == all.skip(m)[0]);
                    assert(all.skip(m)[0] == all[m]);
                    assert(rest@ =~= all.skip(m).skip(1));
                    assert(all.skip(m).skip(1) =~= all.skip(m + 1));
                }
                let resolved = resolve_outcome(next);
                out.push(resolved);
            }
            out
        },
        Err(msg) => unreachable_batch(n, &msg),
    }
}

} // verus!
