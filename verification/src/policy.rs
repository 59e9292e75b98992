//! Domain rules that hold whatever the surrounding application does.
use vstd::prelude::*;

use crate::model::{ComplexityLevel, MaintenanceHealth, OperationalStatus, ServiceOrderStatus};
use crate::text::{collapse_whitespace, collapse_ws, to_uppercase, uppercase_of};

verus! {

/// The normalized form of an identifier: its words joined by single spaces, uppercased.
pub open spec fn normalized_identifier(s: Seq<char>) -> Seq<char> {
    uppercase_of(collapse_ws(s))
}

/// Normalizes a code, tag or reference: `"  fv   10.2 "` becomes `"FV 10.2"`.
pub fn normalize_identifier(value: &str) -> (r: String)
    ensures
        r@ == normalized_identifier(value@),
{
    let collapsed = collapse_whitespace(value);
    to_uppercase(collapsed.as_str())
}

/// Normalizes a machine-item tag.
pub fn normalize_tag(value: &str) -> (r: String)
    ensures
        r@ == normalized_identifier(value@),
{
    normalize_identifier(value)
}

/// Normalizes a stock or part reference.
pub fn normalize_reference(value: &str) -> (r: String)
    ensures
        r@ == normalized_identifier(value@),
{
    normalize_identifier(value)
}

/// The moves a service order may make: it may stay where it is, start, go back to
/// pending, complete or be cancelled while open; a completed or cancelled order is final.
pub open spec fn order_transition_allowed(from: ServiceOrderStatus, to: ServiceOrderStatus) -> bool {
    ||| from == to
    ||| from == ServiceOrderStatus::Pending && to == ServiceOrderStatus::InProgress
    ||| from == ServiceOrderStatus::Pending && to == ServiceOrderStatus::Completed
    ||| from == ServiceOrderStatus::InProgress && to == ServiceOrderStatus::Pending
    ||| from == ServiceOrderStatus::InProgress && to == ServiceOrderStatus::Completed
    ||| from == ServiceOrderStatus::Pending && to == ServiceOrderStatus::Cancelled
    ||| from == ServiceOrderStatus::InProgress && to == ServiceOrderStatus::Cancelled
}

/// Whether a service order may move from `from` to `to`.
pub fn can_transition_order(from: ServiceOrderStatus, to: ServiceOrderStatus) -> (r: bool)
    ensures
        r == order_transition_allowed(from, to),
{
    from == to || (from == ServiceOrderStatus::Pending && to == ServiceOrderStatus::InProgress)
        || (from == ServiceOrderStatus::Pending && to == ServiceOrderStatus::Completed) || (from
        == ServiceOrderStatus::InProgress && to == ServiceOrderStatus::Pending) || (from
        == ServiceOrderStatus::InProgress && to == ServiceOrderStatus::Completed) || (from
        == ServiceOrderStatus::Pending && to == ServiceOrderStatus::Cancelled) || (from
        == ServiceOrderStatus::InProgress && to == ServiceOrderStatus::Cancelled)
}

/// A completed or cancelled order is final: it may only stay where it is.
pub proof fn lemma_finished_orders_are_final(from: ServiceOrderStatus, to: ServiceOrderStatus)
    requires
        from == ServiceOrderStatus::Completed || from == ServiceOrderStatus::Cancelled,
    ensures
        order_transition_allowed(from, to) <==> to == from,
{
}

/// An operator may do work up to their own repair level.
pub fn can_execute_complexity(operator: ComplexityLevel, required: ComplexityLevel) -> (r: bool)
    ensures
        r == (operator.value() >= required.value()),
{
    operator.get() >= required.get()
}

/// How severe a status is when statuses are combined: critical first, unknown last.
pub open spec fn severity(s: OperationalStatus) -> int {
    match s {
        OperationalStatus::Critical => 6,
        OperationalStatus::MaintenanceRequired => 5,
        OperationalStatus::UnderMaintenance => 4,
        OperationalStatus::Attention => 3,
        OperationalStatus::Okay => 2,
        OperationalStatus::Disabled => 1,
        OperationalStatus::Unknown => 0,
    }
}

/// The more severe of two statuses.
pub open spec fn more_severe(a: OperationalStatus, b: OperationalStatus) -> OperationalStatus {
    if severity(b) >= severity(a) {
        b
    } else {
        a
    }
}

/// The status of a machine from the statuses of its items: the most severe one,
/// `Unknown` when there are none.
pub open spec fn derived_status(s: Seq<OperationalStatus>) -> OperationalStatus
    decreases s.len(),
{
    if s.len() == 0 {
        OperationalStatus::Unknown
    } else {
        more_severe(derived_status(s.drop_last()), s.last())
    }
}

/// The derived status is at least as severe as every input status, and is one of them
/// (or `Unknown` for none).
pub proof fn lemma_derived_status_is_most_severe(s: Seq<OperationalStatus>)
    ensures
        forall|i: int| 0 <= i < s.len() ==> severity(#[trigger] s[i]) <= severity(derived_status(s)),
        derived_status(s) == OperationalStatus::Unknown || s.contains(derived_status(s)),
    decreases s.len(),
{
    if s.len() > 0 {
        let p = s.drop_last();
        lemma_derived_status_is_most_severe(p);
        assert forall|i: int| 0 <= i < s.len() implies severity(#[trigger] s[i]) <= severity(
            derived_status(s),
        ) by {
            if i < s.len() - 1 {
                assert(s[i] == p[i]);
            }
        }
        if derived_status(s) != OperationalStatus::Unknown {
            if derived_status(s) == s.last() {
                assert(s[s.len() - 1] == s.last());
            } else {
                let k = choose|k: int| 0 <= k < p.len() && p[k] == derived_status(p);
                assert(s[k] == p[k]);
            }
        }
    }
}

/// A machine's status ranks its items' statuses: critical above all, then maintenance
/// required, under maintenance, attention, ok and disabled, and unknown when there is
/// none of those. Whichever of them occurs first in that order is the machine's status.
pub proof fn lemma_derived_status_ranking(s: Seq<OperationalStatus>)
    ensures
        s.contains(OperationalStatus::Critical) ==> derived_status(s) == OperationalStatus::Critical,
        !s.contains(OperationalStatus::Critical) && s.contains(OperationalStatus::MaintenanceRequired)
            ==> derived_status(s) == OperationalStatus::MaintenanceRequired,
        !s.contains(OperationalStatus::Critical) && !s.contains(OperationalStatus::MaintenanceRequired)
            && s.contains(OperationalStatus::UnderMaintenance) ==> derived_status(s)
            == OperationalStatus::UnderMaintenance,
        !s.contains(OperationalStatus::Critical) && !s.contains(OperationalStatus::MaintenanceRequired)
            && !s.contains(OperationalStatus::UnderMaintenance) && s.contains(OperationalStatus::Attention)
            ==> derived_status(s) == OperationalStatus::Attention,
        !s.contains(OperationalStatus::Critical) && !s.contains(OperationalStatus::MaintenanceRequired)
            && !s.contains(OperationalStatus::UnderMaintenance) && !s.contains(OperationalStatus::Attention)
            && s.contains(OperationalStatus::Okay) ==> derived_status(s) == OperationalStatus::Okay,
        !s.contains(OperationalStatus::Critical) && !s.contains(OperationalStatus::MaintenanceRequired)
            && !s.contains(OperationalStatus::UnderMaintenance) && !s.contains(OperationalStatus::Attention)
            && !s.contains(OperationalStatus::Okay) && s.contains(OperationalStatus::Disabled) ==> derived_status(s)
            == OperationalStatus::Disabled,
        !s.contains(OperationalStatus::Critical) && !s.contains(OperationalStatus::MaintenanceRequired)
            && !s.contains(OperationalStatus::UnderMaintenance) && !s.contains(OperationalStatus::Attention)
            && !s.contains(OperationalStatus::Okay) && !s.contains(OperationalStatus::Disabled) ==> derived_status(s)
            == OperationalStatus::Unknown,
{
    lemma_derived_status_is_most_severe(s);
    let d = derived_status(s);
    assert forall|x: OperationalStatus| #[trigger] s.contains(x) implies severity(x) <= severity(d) by {
        let k = choose|k: int| 0 <= k < s.len() && s[k] == x;
        assert(severity(s[k]) <= severity(d));
    }
}

/// Statuses of equal severity are the same status.
proof fn lemma_severity_injective(a: OperationalStatus, b: OperationalStatus)
    requires
        severity(a) == severity(b),
    ensures
        a == b,
{
}

/// The derived status depends only on which statuses occur, not on their order or how
/// often each occurs.
pub proof fn lemma_derived_status_reads_only_occurrences(a: Seq<OperationalStatus>, b: Seq<OperationalStatus>)
    requires
        forall|e: OperationalStatus| a.contains(e) == b.contains(e),
    ensures
        derived_status(a) == derived_status(b),
{
    lemma_derived_status_is_most_severe(a);
    lemma_derived_status_is_most_severe(b);
    let x = derived_status(a);
    let y = derived_status(b);
    if x != OperationalStatus::Unknown {
        assert(b.contains(x));
        let k = choose|k: int| 0 <= k < b.len() && b[k] == x;
        assert(severity(b[k]) <= severity(y));
    }
    if y != OperationalStatus::Unknown {
        assert(a.contains(y));
        let k = choose|k: int| 0 <= k < a.len() && a[k] == y;
        assert(severity(a[k]) <= severity(x));
    }
    lemma_severity_injective(x, y);
}

/// Reordering the statuses of a machine's items does not change its derived status.
pub proof fn lemma_derived_status_permutation(a: Seq<OperationalStatus>, b: Seq<OperationalStatus>)
    requires
        a.to_multiset() == b.to_multiset(),
    ensures
        derived_status(a) == derived_status(b),
{
    broadcast use vstd::seq_lib::to_multiset_contains;

    assert forall|e: OperationalStatus| a.contains(e) == b.contains(e) by {
        assert(a.contains(e) <==> a.to_multiset().count(e) > 0);
        assert(b.contains(e) <==> b.to_multiset().count(e) > 0);
    }
    lemma_derived_status_reads_only_occurrences(a, b);
}

/// Deriving a status from two lists together is deriving it from the two statuses derived
/// from each, and an `Unknown` item changes nothing.
pub proof fn lemma_derived_status_combines(a: Seq<OperationalStatus>, b: Seq<OperationalStatus>)
    ensures
        derived_status(a + b) == derived_status(seq![derived_status(a), derived_status(b)]),
        derived_status(a.push(OperationalStatus::Unknown)) == derived_status(a),
{
    let ab = a + b;
    let pair = seq![derived_status(a), derived_status(b)];
    lemma_derived_status_is_most_severe(a);
    lemma_derived_status_is_most_severe(b);
    lemma_derived_status_is_most_severe(ab);
    lemma_derived_status_is_most_severe(pair);
    let z = derived_status(ab);
    let w = derived_status(pair);
    assert(pair.drop_last() == seq![derived_status(a)]);
    assert(seq![derived_status(a)].drop_last() == Seq::<OperationalStatus>::empty());
    if derived_status(a) != OperationalStatus::Unknown {
        let k = choose|k: int| 0 <= k < a.len() && a[k] == derived_status(a);
        assert(ab[k] == a[k]);
    }
    if derived_status(b) != OperationalStatus::Unknown {
        let k = choose|k: int| 0 <= k < b.len() && b[k] == derived_status(b);
        assert(ab[a.len() + k] == b[k]);
    }
    if z != OperationalStatus::Unknown {
        let k = choose|k: int| 0 <= k < ab.len() && ab[k] == z;
        if k < a.len() {
            assert(a[k] == ab[k]);
        } else {
            assert(b[k - a.len()] == ab[k]);
        }
    }
    lemma_severity_injective(z, w);
    assert(a.push(OperationalStatus::Unknown).drop_last() == a);
}

fn combine(derived: OperationalStatus, status: OperationalStatus) -> (r: OperationalStatus)
    ensures
        r == more_severe(derived, status),
{
    match (derived, status) {
        (_, OperationalStatus::Critical) => OperationalStatus::Critical,
        (OperationalStatus::Critical, _) => OperationalStatus::Critical,
        (_, OperationalStatus::MaintenanceRequired) => OperationalStatus::MaintenanceRequired,
        (OperationalStatus::MaintenanceRequired, _) => OperationalStatus::MaintenanceRequired,
        (_, OperationalStatus::UnderMaintenance) => OperationalStatus::UnderMaintenance,
        (OperationalStatus::UnderMaintenance, _) => OperationalStatus::UnderMaintenance,
        (_, OperationalStatus::Attention) => OperationalStatus::Attention,
        (OperationalStatus::Attention, _) => OperationalStatus::Attention,
        (_, OperationalStatus::Okay) => OperationalStatus::Okay,
        (OperationalStatus::Okay, _) => OperationalStatus::Okay,
        (_, OperationalStatus::Disabled) => OperationalStatus::Disabled,
        (OperationalStatus::Disabled, _) => OperationalStatus::Disabled,
        _ => OperationalStatus::Unknown,
    }
}

/// The status of a machine derived from its items' statuses.
pub fn derive_machine_status(statuses: &[OperationalStatus]) -> (r: OperationalStatus)
    ensures
        r == derived_status(statuses@),
        statuses@.contains(OperationalStatus::Critical) ==> r == OperationalStatus::Critical,
{
    let mut derived = OperationalStatus::Unknown;
    let mut i: usize = 0;
    while i < statuses.len()
        invariant
            i <= statuses@.len(),
            derived == derived_status(statuses@.take(i as int)),
        decreases statuses@.len() - i,
    {
        assert(statuses@.take(i + 1).drop_last() == statuses@.take(i as int));
        derived = combine(derived, statuses[i]);
        i += 1;
    }
    assert(statuses@.take(statuses@.len() as int) == statuses@);
    proof {
        lemma_derived_status_ranking(statuses@);
    }
    derived
}

/// Applies a signed change to a stock quantity; the result is never negative.
pub fn adjust_stock(quantity: u32, delta: i32) -> (r: Result<u32, &'static str>)
    ensures
        quantity + delta < 0 ==> (r matches Err(e) && e@ == "stock_cannot_be_negative"@),
        quantity + delta > u32::MAX ==> (r matches Err(e) && e@ == "stock_quantity_overflow"@),
        0 <= quantity + delta <= u32::MAX ==> r == Ok::<u32, &'static str>(
            (quantity + delta) as u32,
        ),
{
    let adjusted = quantity as i64 + delta as i64;
    if adjusted < 0 {
        return Err("stock_cannot_be_negative");
    }
    if adjusted > u32::MAX as i64 {
        return Err("stock_quantity_overflow");
    }
    Ok(adjusted as u32)
}

/// The maintenance health for the days since the last maintenance.
pub open spec fn health_for(days: Option<u32>) -> MaintenanceHealth {
    match days {
        None => MaintenanceHealth::Critical,
        Some(d) => if d > 180 {
            MaintenanceHealth::Critical
        } else if d > 150 {
            MaintenanceHealth::Warning
        } else {
            MaintenanceHealth::Okay
        },
    }
}

/// No record, or more than 180 days, is critical; more than 150 is a warning.
pub fn maintenance_health(days_since_last_maintenance: Option<u32>) -> (r: MaintenanceHealth)
    ensures
        r == health_for(days_since_last_maintenance),
{
    match days_since_last_maintenance {
        None => MaintenanceHealth::Critical,
        Some(days) => {
            if days > 180 {
                MaintenanceHealth::Critical
            } else if days > 150 {
                MaintenanceHealth::Warning
            } else {
                MaintenanceHealth::Okay
            }
        },
    }
}

} // verus!
