use crate::mapping::UrlError;
use crate::model::{create_outcome, create_step, resolve_step, RegistryModel};
use vstd::prelude::*;

verus! {

/// One request made of the registry. The read-only operations (reading a
/// mapping, reading the counter) do not appear: they change nothing.
pub ghost enum RegistryOp {
    Create {
        short_code: Seq<char>,
        original_url: Seq<char>,
        creator: Seq<char>,
        authorized: bool,
        now: u64,
    },
    Resolve { short_code: Seq<char> },
}

/// The state after one request.
pub open spec fn apply_op(s: RegistryModel, op: RegistryOp) -> RegistryModel {
    match op {
        RegistryOp::Create { short_code, original_url, creator, authorized, now } => create_step(
            s,
            short_code,
            original_url,
            creator,
            authorized,
            now,
        ),
        RegistryOp::Resolve { short_code } => resolve_step(s, short_code),
    }
}

/// Whether a request is a creation that the given state accepts.
pub open spec fn op_succeeds_as_create(s: RegistryModel, op: RegistryOp) -> bool {
    match op {
        RegistryOp::Create { short_code, authorized, .. } => create_outcome(
            s,
            short_code,
            authorized,
        ) is Ok,
        RegistryOp::Resolve { .. } => false,
    }
}

/// The state after a whole sequence of requests, applied in order.
pub open spec fn run_ops(s: RegistryModel, ops: Seq<RegistryOp>) -> RegistryModel
    decreases ops.len(),
{
    if ops.len() == 0 {
        s
    } else {
        apply_op(run_ops(s, ops.drop_last()), ops.last())
    }
}

/// How many of the requests are creations that succeed, each judged against
/// the state the requests before it have built.
pub open spec fn successful_creates(s: RegistryModel, ops: Seq<RegistryOp>) -> nat
    decreases ops.len(),
{
    if ops.len() == 0 {
        0
    } else {
        successful_creates(s, ops.drop_last()) + (if op_succeeds_as_create(
            run_ops(s, ops.drop_last()),
            ops.last(),
        ) {
            1nat
        } else {
            0nat
        })
    }
}

/// No request removes a mapping: a short code once bound stays bound.
pub proof fn lemma_mapping_persists(s: RegistryModel, op: RegistryOp, code: Seq<char>)
    requires
        s.mappings.contains_key(code),
    ensures
        apply_op(s, op).mappings.contains_key(code),
{
}

/// A short code once bound stays bound through any sequence of requests.
pub proof fn lemma_mapping_persists_over_ops(
    s: RegistryModel,
    ops: Seq<RegistryOp>,
    code: Seq<char>,
)
    requires
        s.mappings.contains_key(code),
    ensures
        run_ops(s, ops).mappings.contains_key(code),
    decreases ops.len(),
{
    if ops.len() > 0 {
        lemma_mapping_persists_over_ops(s, ops.drop_last(), code);
        lemma_mapping_persists(run_ops(s, ops.drop_last()), ops.last(), code);
    }
}

/// Creation uniqueness: once a creation of a short code has succeeded, every
/// later creation attempt for that code — however many requests lie between —
/// is refused as a duplicate and changes neither the stored mappings nor the
/// aggregate counter.
pub proof fn lemma_creation_uniqueness(
    s: RegistryModel,
    short_code: Seq<char>,
    original_url: Seq<char>,
    creator: Seq<char>,
    now: u64,
    ops: Seq<RegistryOp>,
    original_url2: Seq<char>,
    creator2: Seq<char>,
    now2: u64,
)
    requires
        create_outcome(s, short_code, true) is Ok,
    ensures
        ({
            let s1 = create_step(s, short_code, original_url, creator, true, now);
            let s2 = run_ops(s1, ops);
            &&& create_outcome(s2, short_code, true) == Err::<(), UrlError>(
                UrlError::DuplicateShortCode,
            )
            &&& create_step(s2, short_code, original_url2, creator2, true, now2) == s2
        }),
{
    let s1 = create_step(s, short_code, original_url, creator, true, now);
    lemma_mapping_persists_over_ops(s1, ops, short_code);
}

/// Resolution increments exactly once: starting from a mapping with no
/// recorded accesses, a run of resolutions leaves the access counter at
/// exactly the number of resolutions, and leaves the target URL, the
/// creator, the creation time and the aggregate counter untouched.
pub proof fn lemma_resolution_increments(s: RegistryModel, short_code: Seq<char>, n: nat)
    requires
        s.mappings.contains_key(short_code),
        s.mappings[short_code].click_count == 0,
        n <= u64::MAX,
    ensures
        ({
            let sn = resolve_n(s, short_code, n);
            &&& sn.mappings.contains_key(short_code)
            &&& sn.mappings[short_code].click_count == n
            &&& sn.mappings[short_code].original_url == s.mappings[short_code].original_url
            &&& sn.mappings[short_code].creator == s.mappings[short_code].creator
            &&& sn.mappings[short_code].created_at == s.mappings[short_code].created_at
            &&& sn.total == s.total
        }),
    decreases n,
{
    if n > 0 {
        lemma_resolution_increments(s, short_code, (n - 1) as nat);
    }
}

/// The state after resolving the same short code a given number of times.
pub open spec fn resolve_n(s: RegistryModel, short_code: Seq<char>, n: nat) -> RegistryModel
    decreases n,
{
    if n == 0 {
        s
    } else {
        resolve_step(resolve_n(s, short_code, (n - 1) as nat), short_code)
    }
}

/// Absence sentinel stability: resolving a short code that was never created
/// changes nothing — no mapping, no counter, no storage lifetime.
pub proof fn lemma_absent_resolve_stability(s: RegistryModel, short_code: Seq<char>)
    requires
        !s.mappings.contains_key(short_code),
    ensures
        resolve_step(s, short_code) == s,
{
}

/// Counter monotonicity: after any sequence of requests, the aggregate
/// counter has grown by exactly the number of creations that succeeded — and
/// so it never decreases.
pub proof fn lemma_counter_monotonicity(s: RegistryModel, ops: Seq<RegistryOp>)
    ensures
        run_ops(s, ops).total == s.total + successful_creates(s, ops),
        run_ops(s, ops).total >= s.total,
    decreases ops.len(),
{
    if ops.len() > 0 {
        lemma_counter_monotonicity(s, ops.drop_last());
    }
}

/// Authorization gate: a creation whose caller could not prove control of
/// the claimed creator identity is refused as unauthorized and changes
/// nothing, whether or not the short code is already in use.
pub proof fn lemma_authorization_gate(
    s: RegistryModel,
    short_code: Seq<char>,
    original_url: Seq<char>,
    creator: Seq<char>,
    now: u64,
)
    ensures
        create_outcome(s, short_code, false) == Err::<(), UrlError>(UrlError::Unauthorized),
        create_step(s, short_code, original_url, creator, false, now) == s,
{
}

} // verus!
