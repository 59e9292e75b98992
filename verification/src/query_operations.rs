//! Reading the operations: service orders and inspections (filtered, newest first) and
//! the audit trail (filtered, newest first, a page at a time, with its facets).
use vstd::prelude::*;

use crate::model::{AuditEvent, ItemInspection, PhotoOwnerType, ServiceOrder, ServiceOrderTask, ServiceOrderTaskStatus};
use crate::positions::{sort_descending, sorted_descending};
use crate::query_assets::{page_end, page_start};
use crate::query_support::{
    contains_text, is_empty_text, order_status_name, order_status_text, photo_positions, photos_of,
    positions_where, text_contains,
};
use crate::state::ApplicationState;
use crate::text::{lowercase_of, str_equal, to_lowercase, trim, trimmed};
use crate::text_order::{is_sorted_set, sorted_set, views};

verus! {

/// What the order list is asked for: trimmed texts, empty when not given.
#[derive(Debug, Clone)]
pub struct OrderFilter {
    pub id: String,
    pub machine_id: String,
    pub status: String,
    pub operator_id: String,
}

/// Some task of the order is assigned to `operator`.
pub open spec fn assigned_to(tasks: Seq<ServiceOrderTask>, operator: Seq<char>) -> bool {
    exists|j: int|
        0 <= j < tasks.len() && ((#[trigger] tasks[j]).assigned_operator_id matches Some(a) && a@ == operator)
}

/// Order `o` passes the filter.
pub open spec fn order_selected(o: ServiceOrder, f: OrderFilter) -> bool {
    &&& (f.id@.len() == 0 || o.id@ == f.id@)
    &&& (f.machine_id@.len() == 0 || o.machine_id@ == f.machine_id@)
    &&& (f.status@.len() == 0 || order_status_text(o.status) == f.status@)
    &&& (f.operator_id@.len() == 0 || assigned_to(o.tasks@, f.operator_id@))
}

/// The highest complexity among the tasks (0 for none).
pub open spec fn tasks_max_level(tasks: Seq<ServiceOrderTask>) -> int
    decreases tasks.len(),
{
    if tasks.len() == 0 {
        0
    } else {
        let prev = tasks_max_level(tasks.drop_last());
        let v = tasks.last().complexity_snapshot.value() as int;
        if v > prev {
            v
        } else {
            prev
        }
    }
}

/// The complexity an order needs: its highest task complexity, 1 without tasks.
pub open spec fn order_level(tasks: Seq<ServiceOrderTask>) -> int {
    if tasks.len() == 0 {
        1
    } else {
        tasks_max_level(tasks)
    }
}

/// How many tasks are completed.
pub open spec fn completed_count(tasks: Seq<ServiceOrderTask>) -> nat {
    tasks.filter(|t: ServiceOrderTask| t.status == ServiceOrderTaskStatus::Completed).len()
}

/// A listed order: its position, the complexity it needs and how many tasks are done.
#[derive(Debug, Clone)]
pub struct OrderRow {
    pub order: usize,
    pub maximum_complexity_level: u8,
    pub completed_tasks: usize,
}

/// `row` shows order `k` of the state.
pub open spec fn is_order_row(row: OrderRow, s: ApplicationState, k: usize) -> bool {
    let tasks = s.service_orders@[k as int].tasks@;
    &&& row.order == k
    &&& row.maximum_complexity_level == order_level(tasks)
    &&& row.completed_tasks == completed_count(tasks)
}

fn order_row(s: &ApplicationState, k: usize) -> (r: OrderRow)
    requires
        k < s.service_orders@.len(),
    ensures
        is_order_row(r, *s, k),
{
    let tasks = &s.service_orders[k].tasks;
    let mut level: u8 = 0;
    let mut done: usize = 0;
    let mut i: usize = 0;
    while i < tasks.len()
        invariant
            i <= tasks@.len(),
            level == tasks_max_level(tasks@.take(i as int)),
            done == completed_count(tasks@.take(i as int)),
            done <= i,
        decreases tasks@.len() - i,
    {
        proof {
            let t = tasks@.take(i + 1);
            assert(t.drop_last() == tasks@.take(i as int));
            reveal(Seq::filter);
        }
        let v = tasks[i].complexity_snapshot.get();
        if v > level {
            level = v;
        }
        if tasks[i].status == ServiceOrderTaskStatus::Completed {
            done += 1;
        }
        i += 1;
    }
    assert(tasks@.take(i as int) == tasks@);
    let maximum = if tasks.len() == 0 {
        1
    } else {
        level
    };
    OrderRow { order: k, maximum_complexity_level: maximum, completed_tasks: done }
}

fn order_passes(o: &ServiceOrder, f: &OrderFilter) -> (r: bool)
    ensures
        r == order_selected(*o, *f),
{
    let assigned = if is_empty_text(f.operator_id.as_str()) {
        true
    } else {
        let mut found = false;
        let mut j: usize = 0;
        while j < o.tasks.len()
            invariant
                j <= o.tasks@.len(),
                found == exists|q: int|
                    0 <= q < j && ((#[trigger] o.tasks@[q]).assigned_operator_id matches Some(a) && a@
                        == f.operator_id@),
            decreases o.tasks@.len() - j,
        {
            if let Some(a) = &o.tasks[j].assigned_operator_id {
                if str_equal(a.as_str(), f.operator_id.as_str()) {
                    found = true;
                }
            }
            j += 1;
        }
        found
    };
    (is_empty_text(f.id.as_str()) || str_equal(o.id.as_str(), f.id.as_str())) && (is_empty_text(
        f.machine_id.as_str(),
    ) || str_equal(o.machine_id.as_str(), f.machine_id.as_str())) && (is_empty_text(f.status.as_str())
        || str_equal(order_status_name(o.status), f.status.as_str())) && assigned
}

/// The positions of the orders that pass the filter.
pub open spec fn selected_orders(orders: Seq<ServiceOrder>, f: OrderFilter) -> Seq<usize> {
    positions_where(orders.len(), |i: int| order_selected(orders[i], f))
}

/// When each selected order was created, the order of the list.
pub open spec fn created_keys(orders: Seq<ServiceOrder>, sel: Seq<usize>) -> Seq<u64> {
    sel.map_values(|k: usize| orders[k as int].created_at_ms)
}

/// `rows` is the order list for filter `f`: the orders that pass it, newest first (a
/// stable sort), each with the complexity it needs and its completed tasks.
pub open spec fn is_order_list(rows: Seq<OrderRow>, s: ApplicationState, f: OrderFilter) -> bool {
    let sel = selected_orders(s.service_orders@, f);
    &&& rows.len() == sel.len()
    &&& exists|o: Seq<usize>|
        #[trigger] sorted_descending(created_keys(s.service_orders@, sel), o) && forall|r: int|
            0 <= r < sel.len() ==> is_order_row(#[trigger] rows[r], s, sel[o[r] as int])
}

/// Lists the orders for a filter.
pub fn orders_query(s: &ApplicationState, f: &OrderFilter) -> (r: Vec<OrderRow>)
    ensures
        is_order_list(r@, *s, *f),
{
    let ghost orders = s.service_orders@;
    let ghost p = |i: int| order_selected(orders[i], *f);
    let mut sel: Vec<usize> = Vec::new();
    let mut keys: Vec<u64> = Vec::new();
    let mut i: usize = 0;
    while i < s.service_orders.len()
        invariant
            i <= orders.len(),
            orders == s.service_orders@,
            p == (|i: int| order_selected(orders[i], *f)),
            sel@ == positions_where(i as nat, p),
            keys@ == created_keys(orders, sel@),
        decreases orders.len() - i,
    {
        if order_passes(&s.service_orders[i], f) {
            sel.push(i);
            keys.push(s.service_orders[i].created_at_ms);
            proof {
                assert(created_keys(orders, sel@) =~= created_keys(orders, sel@.drop_last()).push(
                    orders[i as int].created_at_ms,
                ));
                assert(sel@.drop_last() == positions_where(i as nat, p));
            }
        }
        i += 1;
    }
    proof {
        crate::query_support::lemma_positions_where(orders.len(), p);
    }
    let order = sort_descending(&keys);
    let mut rows: Vec<OrderRow> = Vec::new();
    let mut r: usize = 0;
    while r < order.len()
        invariant
            r <= order@.len(),
            order@.len() == sel@.len(),
            forall|a: int| 0 <= a < order@.len() ==> (#[trigger] order@[a]) < sel@.len(),
            forall|a: int| 0 <= a < sel@.len() ==> (#[trigger] sel@[a]) < orders.len(),
            orders == s.service_orders@,
            rows@.len() == r,
            forall|q: int| 0 <= q < r ==> is_order_row(#[trigger] rows@[q], *s, sel@[order@[q] as int]),
        decreases order@.len() - r,
    {
        assert(order@[r as int] < sel@.len());
        rows.push(order_row(s, sel[order[r]]));
        r += 1;
    }
    proof {
        assert(sorted_descending(created_keys(orders, sel@), order@));
    }
    rows
}

/// What the inspection list is asked for: trimmed texts, empty when not given.
#[derive(Debug, Clone)]
pub struct InspectionFilter {
    pub id: String,
    pub service_order_id: String,
    pub machine_id: String,
    pub machine_item_id: String,
    pub operator_id: String,
}

/// Inspection `x` passes the filter.
pub open spec fn inspection_selected(x: ItemInspection, f: InspectionFilter) -> bool {
    &&& (f.id@.len() == 0 || x.id@ == f.id@)
    &&& (f.service_order_id@.len() == 0 || (x.service_order_id matches Some(o) && o@ == f.service_order_id@))
    &&& (f.machine_id@.len() == 0 || x.machine_id@ == f.machine_id@)
    &&& (f.machine_item_id@.len() == 0 || x.machine_item_id@ == f.machine_item_id@)
    &&& (f.operator_id@.len() == 0 || x.operator_id@ == f.operator_id@)
}

/// A listed inspection: its position and its photos'.
#[derive(Debug, Clone)]
pub struct InspectionRow {
    pub inspection: usize,
    pub photos: Vec<usize>,
}

/// The positions of the inspections that pass the filter.
pub open spec fn selected_inspections(inspections: Seq<ItemInspection>, f: InspectionFilter) -> Seq<usize> {
    positions_where(inspections.len(), |i: int| inspection_selected(inspections[i], f))
}

/// When each selected inspection started, the order of the list.
pub open spec fn started_keys(inspections: Seq<ItemInspection>, sel: Seq<usize>) -> Seq<u64> {
    sel.map_values(|k: usize| inspections[k as int].started_at_ms)
}

/// `rows` is the inspection list for filter `f`: the inspections that pass it, latest
/// started first (a stable sort), each with its photos.
pub open spec fn is_inspection_list(rows: Seq<InspectionRow>, s: ApplicationState, f: InspectionFilter) -> bool {
    let sel = selected_inspections(s.inspections@, f);
    &&& rows.len() == sel.len()
    &&& exists|o: Seq<usize>|
        #[trigger] sorted_descending(started_keys(s.inspections@, sel), o) && forall|r: int|
            0 <= r < sel.len() ==> (#[trigger] rows[r]).inspection == sel[o[r] as int] && rows[r].photos@
                == photos_of(s.photos@, PhotoOwnerType::Inspection, s.inspections@[sel[o[r] as int] as int].id@)
}

/// Lists the inspections for a filter.
pub fn inspections_query(s: &ApplicationState, f: &InspectionFilter) -> (r: Vec<InspectionRow>)
    ensures
        is_inspection_list(r@, *s, *f),
{
    let ghost insp = s.inspections@;
    let ghost p = |i: int| inspection_selected(insp[i], *f);
    let mut sel: Vec<usize> = Vec::new();
    let mut keys: Vec<u64> = Vec::new();
    let mut i: usize = 0;
    while i < s.inspections.len()
        invariant
            i <= insp.len(),
            insp == s.inspections@,
            p == (|i: int| inspection_selected(insp[i], *f)),
            sel@ == positions_where(i as nat, p),
            keys@ == started_keys(insp, sel@),
        decreases insp.len() - i,
    {
        let x = &s.inspections[i];
        let passes = (is_empty_text(f.id.as_str()) || str_equal(x.id.as_str(), f.id.as_str())) && (
        is_empty_text(f.service_order_id.as_str()) || match &x.service_order_id {
            Some(o) => str_equal(o.as_str(), f.service_order_id.as_str()),
            None => false,
        }) && (is_empty_text(f.machine_id.as_str()) || str_equal(x.machine_id.as_str(), f.machine_id.as_str()))
            && (is_empty_text(f.machine_item_id.as_str()) || str_equal(
            x.machine_item_id.as_str(),
            f.machine_item_id.as_str(),
        )) && (is_empty_text(f.operator_id.as_str()) || str_equal(x.operator_id.as_str(), f.operator_id.as_str()));
        if passes {
            sel.push(i);
            keys.push(x.started_at_ms);
            proof {
                assert(started_keys(insp, sel@) =~= started_keys(insp, sel@.drop_last()).push(insp[i as int].started_at_ms));
                assert(sel@.drop_last() == positions_where(i as nat, p));
            }
        }
        i += 1;
    }
    proof {
        crate::query_support::lemma_positions_where(insp.len(), p);
    }
    let order = sort_descending(&keys);
    let mut rows: Vec<InspectionRow> = Vec::new();
    let mut r: usize = 0;
    while r < order.len()
        invariant
            r <= order@.len(),
            order@.len() == sel@.len(),
            forall|a: int| 0 <= a < order@.len() ==> (#[trigger] order@[a]) < sel@.len(),
            forall|a: int| 0 <= a < sel@.len() ==> (#[trigger] sel@[a]) < insp.len(),
            insp == s.inspections@,
            rows@.len() == r,
            forall|q: int|
                0 <= q < r ==> (#[trigger] rows@[q]).inspection == sel@[order@[q] as int] && rows@[q].photos@
                    == photos_of(s.photos@, PhotoOwnerType::Inspection, insp[sel@[order@[q] as int] as int].id@),
        decreases order@.len() - r,
    {
        assert(order@[r as int] < sel@.len());
        let k = sel[order[r]];
        let photos = photo_positions(&s.photos, PhotoOwnerType::Inspection, s.inspections[k].id.as_str());
        rows.push(InspectionRow { inspection: k, photos });
        r += 1;
    }
    proof {
        assert(sorted_descending(started_keys(insp, sel@), order@));
    }
    rows
}

/// What the audit trail is asked for: the search trimmed and lowercased, the other texts
/// trimmed, all empty when not given; the time window and the page.
#[derive(Debug, Clone)]
pub struct AuditFilter {
    pub search: String,
    pub operation: String,
    pub actor: String,
    pub aggregate: String,
    pub from_ms: u64,
    pub to_ms: u64,
    pub page: usize,
    pub page_size: usize,
}

/// The search text of the audit trail: trimmed and lowercased, empty when not given.
pub fn search_filter(raw: Option<&str>) -> (r: String)
    ensures
        r@ == lowercase_of(
            match raw {
                Some(t) => trim(t@),
                None => Seq::empty(),
            },
        ),
{
    let t = crate::query_support::text_filter(raw);
    to_lowercase(t.as_str())
}

/// Event `e` passes the filter.
pub open spec fn event_selected(e: AuditEvent, f: AuditFilter) -> bool {
    &&& (f.search@.len() == 0 || text_contains(lowercase_of(e.actor@), f.search@) || text_contains(
        lowercase_of(e.operation@),
        f.search@,
    ) || text_contains(lowercase_of(e.aggregate_id@), f.search@) || (e.description matches Some(d)
        && text_contains(lowercase_of(d@), f.search@)))
    &&& (f.operation@.len() == 0 || e.operation@ == f.operation@)
    &&& (f.actor@.len() == 0 || e.actor@ == f.actor@)
    &&& (f.aggregate@.len() == 0 || e.aggregate@ == f.aggregate@)
    &&& f.from_ms <= e.created_at_ms <= f.to_ms
}

/// The positions below `n` that pass `p`, from the last down.
pub open spec fn positions_from_last(n: nat, p: spec_fn(int) -> bool) -> Seq<usize>
    decreases n,
{
    if n == 0 {
        Seq::empty()
    } else if p(n - 1) {
        seq![(n - 1) as usize] + positions_from_last((n - 1) as nat, p)
    } else {
        positions_from_last((n - 1) as nat, p)
    }
}

/// A page of the audit trail: the positions of its events, how many pass the filter, the
/// page asked for, and the distinct operations, actors and aggregates of the whole trail.
#[derive(Debug, Clone)]
pub struct AuditPage {
    pub events: Vec<usize>,
    pub total: usize,
    pub page: usize,
    pub page_size: usize,
    pub operations: Vec<String>,
    pub actors: Vec<String>,
    pub aggregates: Vec<String>,
}

/// `page` is the audit trail for filter `f`: the events that pass it, newest first, the
/// page asked for, and the facets of the whole trail.
pub open spec fn is_audit_page(page: AuditPage, s: ApplicationState, f: AuditFilter) -> bool {
    let events = s.audit_events@;
    let sel = positions_from_last(events.len(), |i: int| event_selected(events[i], f));
    let start = page_start(f.page, f.page_size, sel.len());
    let end = page_end(start, f.page_size, sel.len());
    &&& page.total == sel.len()
    &&& page.page == f.page
    &&& page.page_size == f.page_size
    &&& page.events@ == sel.subrange(start, end)
    &&& is_sorted_set(events.map_values(|e: AuditEvent| e.operation@), views(page.operations@))
    &&& is_sorted_set(events.map_values(|e: AuditEvent| e.actor@), views(page.actors@))
    &&& is_sorted_set(events.map_values(|e: AuditEvent| e.aggregate@), views(page.aggregates@))
}

fn event_passes(e: &AuditEvent, f: &AuditFilter) -> (r: bool)
    ensures
        r == event_selected(*e, *f),
{
    let s = f.search.as_str();
    let found = is_empty_text(s) || contains_text(to_lowercase(e.actor.as_str()).as_str(), s) || contains_text(
        to_lowercase(e.operation.as_str()).as_str(),
        s,
    ) || contains_text(to_lowercase(e.aggregate_id.as_str()).as_str(), s) || match &e.description {
        Some(d) => contains_text(to_lowercase(d.as_str()).as_str(), s),
        None => false,
    };
    found && (is_empty_text(f.operation.as_str()) || str_equal(e.operation.as_str(), f.operation.as_str()))
        && (is_empty_text(f.actor.as_str()) || str_equal(e.actor.as_str(), f.actor.as_str())) && (
    is_empty_text(f.aggregate.as_str()) || str_equal(e.aggregate.as_str(), f.aggregate.as_str()))
        && f.from_ms <= e.created_at_ms && e.created_at_ms <= f.to_ms
}

/// Reads a page of the audit trail.
pub fn audit_query(s: &ApplicationState, f: &AuditFilter) -> (r: AuditPage)
    ensures
        is_audit_page(r, *s, *f),
{
    let ghost events = s.audit_events@;
    let ghost p = |i: int| event_selected(events[i], *f);
    let mut sel: Vec<usize> = Vec::new();
    let mut ops: Vec<String> = Vec::new();
    let mut actors: Vec<String> = Vec::new();
    let mut aggregates: Vec<String> = Vec::new();
    let mut i: usize = 0;
    while i < s.audit_events.len()
        invariant
            i <= events.len(),
            events == s.audit_events@,
            p == (|i: int| event_selected(events[i], *f)),
            sel@ == positions_from_last(i as nat, p),
            views(ops@) == events.take(i as int).map_values(|e: AuditEvent| e.operation@),
            views(actors@) == events.take(i as int).map_values(|e: AuditEvent| e.actor@),
            views(aggregates@) == events.take(i as int).map_values(|e: AuditEvent| e.aggregate@),
        decreases events.len() - i,
    {
        let e = &s.audit_events[i];
        if event_passes(e, f) {
            sel.insert(0, i);
            assert(sel@ =~= seq![i] + positions_from_last(i as nat, p));
        }
        let ghost ob = views(ops@);
        let ghost ab = views(actors@);
        let ghost gb = views(aggregates@);
        ops.push(e.operation.clone());
        actors.push(e.actor.clone());
        aggregates.push(e.aggregate.clone());
        proof {
            assert(events.take(i + 1) == events.take(i as int).push(*e));
            assert(views(ops@) =~= ob.push(e.operation@));
            assert(views(actors@) =~= ab.push(e.actor@));
            assert(views(aggregates@) =~= gb.push(e.aggregate@));
            assert(events.take(i + 1).map_values(|e: AuditEvent| e.operation@) =~= events.take(i as int).map_values(
                |e: AuditEvent| e.operation@,
            ).push(e.operation@));
            assert(events.take(i + 1).map_values(|e: AuditEvent| e.actor@) =~= events.take(i as int).map_values(
                |e: AuditEvent| e.actor@,
            ).push(e.actor@));
            assert(events.take(i + 1).map_values(|e: AuditEvent| e.aggregate@) =~= events.take(i as int).map_values(
                |e: AuditEvent| e.aggregate@,
            ).push(e.aggregate@));
        }
        i += 1;
    }
    proof {
        assert(events.take(i as int) == events);
    }
    let total = sel.len();
    let (start, end) = crate::query_assets::page_bounds(f.page, f.page_size, total);
    let mut page_events: Vec<usize> = Vec::new();
    let mut r: usize = start;
    while r < end
        invariant
            start <= r <= end <= total,
            total == sel@.len(),
            page_events@ == sel@.subrange(start as int, r as int),
        decreases end - r,
    {
        page_events.push(sel[r]);
        assert(sel@.subrange(start as int, r + 1) == sel@.subrange(start as int, r as int).push(sel@[r as int]));
        r += 1;
    }
    AuditPage {
        events: page_events,
        total,
        page: f.page,
        page_size: f.page_size,
        operations: sorted_set(&ops),
        actors: sorted_set(&actors),
        aggregates: sorted_set(&aggregates),
    }
}

} // verus!
