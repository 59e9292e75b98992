//! Reading summaries: the overview, the reports by zone, the people lists, resolving an
//! identity, and which queries a role may run.
use vstd::prelude::*;

use crate::lookup::{index_of_id, position_of_id};
use crate::model::{
    ItemInspection, Machine, MachineItem, OperationalStatus, ServiceOrder, ServiceOrderStatus, StockItem,
    UserAccount,
};
use crate::permissions::{
    allowed, can, query_permission, query_permission_spec, Role, GET_OVERVIEW, GET_REPORTS,
    LIST_AUDIT, LIST_INSPECTIONS, LIST_ITEM_CATEGORIES, LIST_MACHINES, LIST_OPERATORS,
    LIST_RESTOCK_REQUESTS, LIST_SERVICE_ORDERS, LIST_STOCK, LIST_SUPPLIERS, LIST_USERS,
    RESOLVE_IDENTITY,
};
use crate::positions::{pair_views, sort_by_pairs, sort_descending, sorted_by_pairs, sorted_descending};
use crate::query_support::{
    counts_statuses, order_status_counts, orders_in, positions_where, status_counts, OrderStatusCounts,
    StatusCounts,
};
use crate::state::ApplicationState;
use crate::text::{lowercase_of, str_equal, to_lowercase, trim, trimmed};
use crate::text_order::{is_sorted_set, sorted_set, views};

verus! {

/// The statuses of the machines.
pub open spec fn machine_status_seq(machines: Seq<Machine>) -> Seq<OperationalStatus> {
    machines.map_values(|m: Machine| m.status)
}

/// The statuses of the active items.
pub open spec fn active_item_statuses(items: Seq<MachineItem>) -> Seq<OperationalStatus> {
    items.filter(|it: MachineItem| it.active).map_values(|it: MachineItem| it.status)
}

/// The stock entries at or below their minimum.
pub open spec fn low_stock_count(stock: Seq<StockItem>) -> nat {
    stock.filter(|s: StockItem| s.quantity <= s.minimum_quantity).len()
}

/// When each inspection started.
pub open spec fn all_started(inspections: Seq<ItemInspection>) -> Seq<u64> {
    inspections.map_values(|x: ItemInspection| x.started_at_ms)
}

/// An order still to be done on a date: scheduled, and neither completed nor cancelled.
pub open spec fn is_upcoming(o: ServiceOrder) -> bool {
    o.scheduled_for is Some && o.status != ServiceOrderStatus::Completed && o.status
        != ServiceOrderStatus::Cancelled
}

/// The positions of the upcoming orders.
pub open spec fn upcoming_orders(orders: Seq<ServiceOrder>) -> Seq<usize> {
    positions_where(orders.len(), |i: int| is_upcoming(orders[i]))
}

/// The date each upcoming order is scheduled for, the order of the list.
pub open spec fn schedule_keys(orders: Seq<ServiceOrder>, sel: Seq<usize>) -> Seq<(Seq<char>, Seq<char>)> {
    sel.map_values(|k: usize| (orders[k as int].scheduled_for->0@, Seq::<char>::empty()))
}

/// The first `n` of `s`, or all of it.
pub open spec fn first_of(s: Seq<usize>, n: int) -> Seq<usize> {
    if s.len() <= n {
        s
    } else {
        s.take(n)
    }
}

/// What the overview shows.
#[derive(Debug, Clone)]
pub struct Overview {
    pub schema_version: u32,
    pub machine_total: usize,
    pub machine_statuses: StatusCounts,
    pub item_total: usize,
    pub item_statuses: StatusCounts,
    pub orders: OrderStatusCounts,
    pub low_stock: usize,
    pub stock_total: usize,
    pub recent_inspections: Vec<usize>,
    pub upcoming_orders: Vec<usize>,
}

/// `o` is the overview of the state: machines and active items by status, orders by
/// state, low stock, the five inspections started last, and the five upcoming orders
/// scheduled first.
pub open spec fn is_overview(o: Overview, s: ApplicationState) -> bool {
    let up = upcoming_orders(s.service_orders@);
    &&& o.schema_version == s.schema_version
    &&& o.machine_total == s.machines@.len()
    &&& counts_statuses(o.machine_statuses, machine_status_seq(s.machines@))
    &&& o.item_total == active_item_statuses(s.machine_items@).len()
    &&& counts_statuses(o.item_statuses, active_item_statuses(s.machine_items@))
    &&& o.orders.cancelled == orders_in(s.service_orders@, ServiceOrderStatus::Cancelled)
    &&& o.orders.completed == orders_in(s.service_orders@, ServiceOrderStatus::Completed)
    &&& o.orders.in_progress == orders_in(s.service_orders@, ServiceOrderStatus::InProgress)
    &&& o.orders.pending == orders_in(s.service_orders@, ServiceOrderStatus::Pending)
    &&& o.low_stock == low_stock_count(s.stock_items@)
    &&& o.stock_total == s.stock_items@.len()
    &&& exists|r: Seq<usize>|
        #[trigger] sorted_descending(all_started(s.inspections@), r) && o.recent_inspections@ == first_of(r, 5)
    &&& exists|r: Seq<usize>|
        #[trigger] sorted_by_pairs(schedule_keys(s.service_orders@, up), r) && o.upcoming_orders@ == first_of(
            r,
            5,
        ).map_values(|j: usize| up[j as int])
}

fn first_five(v: &Vec<usize>) -> (r: Vec<usize>)
    ensures
        r@ == first_of(v@, 5),
{
    let mut out: Vec<usize> = Vec::new();
    let mut i: usize = 0;
    while i < v.len() && i < 5
        invariant
            i <= v@.len(),
            i <= 5,
            out@ == v@.take(i as int),
        decreases v@.len() - i,
    {
        out.push(v[i]);
        assert(v@.take(i + 1) == v@.take(i as int).push(v@[i as int]));
        i += 1;
    }
    if v.len() <= 5 {
        assert(v@.take(v@.len() as int) == v@);
    }
    out
}

/// The inspections, latest started first.
pub fn inspections_by_start(inspections: &Vec<ItemInspection>) -> (r: Vec<usize>)
    ensures
        sorted_descending(all_started(inspections@), r@),
{
    let mut keys: Vec<u64> = Vec::new();
    let mut i: usize = 0;
    while i < inspections.len()
        invariant
            i <= inspections@.len(),
            keys@ == all_started(inspections@.take(i as int)),
        decreases inspections@.len() - i,
    {
        keys.push(inspections[i].started_at_ms);
        proof {
            assert(inspections@.take(i + 1) == inspections@.take(i as int).push(inspections@[i as int]));
            assert(all_started(inspections@.take(i + 1)) =~= all_started(inspections@.take(i as int)).push(
                inspections@[i as int].started_at_ms,
            ));
        }
        i += 1;
    }
    assert(inspections@.take(i as int) == inspections@);
    sort_descending(&keys)
}

/// Computes the overview.
pub fn overview(s: &ApplicationState) -> (r: Overview)
    ensures
        is_overview(r, *s),
{
    let mut machine_statuses: Vec<OperationalStatus> = Vec::new();
    let mut i: usize = 0;
    while i < s.machines.len()
        invariant
            i <= s.machines@.len(),
            machine_statuses@ == machine_status_seq(s.machines@.take(i as int)),
        decreases s.machines@.len() - i,
    {
        machine_statuses.push(s.machines[i].status);
        proof {
            assert(s.machines@.take(i + 1) == s.machines@.take(i as int).push(s.machines@[i as int]));
            assert(machine_status_seq(s.machines@.take(i + 1)) =~= machine_status_seq(s.machines@.take(i as int)).push(
                s.machines@[i as int].status,
            ));
        }
        i += 1;
    }
    assert(s.machines@.take(i as int) == s.machines@);
    let ghost act = |it: MachineItem| it.active;
    let ghost st = |it: MachineItem| it.status;
    let mut item_statuses: Vec<OperationalStatus> = Vec::new();
    let mut j: usize = 0;
    while j < s.machine_items.len()
        invariant
            j <= s.machine_items@.len(),
            act == (|it: MachineItem| it.active),
            st == (|it: MachineItem| it.status),
            item_statuses@ == s.machine_items@.take(j as int).filter(act).map_values(st),
        decreases s.machine_items@.len() - j,
    {
        let ghost before = s.machine_items@.take(j as int).filter(act);
        proof {
            assert(s.machine_items@.take(j + 1) == s.machine_items@.take(j as int).push(s.machine_items@[j as int]));
            s.machine_items@.take(j as int).lemma_filter_push(s.machine_items@[j as int], act);
        }
        if s.machine_items[j].active {
            item_statuses.push(s.machine_items[j].status);
            proof {
                assert(before.push(s.machine_items@[j as int]).map_values(st) =~= before.map_values(st).push(
                    s.machine_items@[j as int].status,
                ));
            }
        }
        j += 1;
    }
    assert(s.machine_items@.take(j as int) == s.machine_items@);
    let ghost low = |x: StockItem| x.quantity <= x.minimum_quantity;
    let mut low_stock: usize = 0;
    let mut k: usize = 0;
    while k < s.stock_items.len()
        invariant
            k <= s.stock_items@.len(),
            low == (|x: StockItem| x.quantity <= x.minimum_quantity),
            low_stock == s.stock_items@.take(k as int).filter(low).len(),
            low_stock <= k,
        decreases s.stock_items@.len() - k,
    {
        proof {
            assert(s.stock_items@.take(k + 1) == s.stock_items@.take(k as int).push(s.stock_items@[k as int]));
            s.stock_items@.take(k as int).lemma_filter_push(s.stock_items@[k as int], low);
        }
        if s.stock_items[k].quantity <= s.stock_items[k].minimum_quantity {
            low_stock += 1;
        }
        k += 1;
    }
    assert(s.stock_items@.take(k as int) == s.stock_items@);
    let recent = inspections_by_start(&s.inspections);
    let ghost orders = s.service_orders@;
    let ghost p = |i: int| is_upcoming(orders[i]);
    let mut up: Vec<usize> = Vec::new();
    let mut keys: Vec<(String, String)> = Vec::new();
    let mut q: usize = 0;
    while q < s.service_orders.len()
        invariant
            q <= orders.len(),
            orders == s.service_orders@,
            p == (|i: int| is_upcoming(orders[i])),
            up@ == positions_where(q as nat, p),
            pair_views(keys@) == schedule_keys(orders, up@),
        decreases orders.len() - q,
    {
        let o = &s.service_orders[q];
        if let Some(when) = &o.scheduled_for {
            if o.status != ServiceOrderStatus::Completed && o.status != ServiceOrderStatus::Cancelled {
                let ghost kb = pair_views(keys@);
                up.push(q);
                keys.push((when.clone(), String::new()));
                proof {
                    assert(pair_views(keys@) =~= kb.push((when@, Seq::<char>::empty())));
                    assert(schedule_keys(orders, up@) =~= schedule_keys(orders, up@.drop_last()).push(
                        (when@, Seq::<char>::empty()),
                    ));
                    assert(up@.drop_last() == positions_where(q as nat, p));
                }
            }
        }
        q += 1;
    }
    let order = sort_by_pairs(&keys);
    let first = first_five(&order);
    proof {
        crate::query_support::lemma_positions_where(orders.len(), p);
    }
    let mut upcoming: Vec<usize> = Vec::new();
    let mut r: usize = 0;
    while r < first.len()
        invariant
            r <= first@.len(),
            first@ == first_of(order@, 5),
            order@.len() == up@.len(),
            forall|a: int| 0 <= a < order@.len() ==> (#[trigger] order@[a]) < up@.len(),
            upcoming@ == first@.take(r as int).map_values(|j: usize| up@[j as int]),
        decreases first@.len() - r,
    {
        assert(first@[r as int] == order@[r as int]);
        upcoming.push(up[first[r]]);
        assert(first@.take(r + 1) == first@.take(r as int).push(first@[r as int]));
        assert(upcoming@ =~= first@.take(r + 1).map_values(|j: usize| up@[j as int]));
        r += 1;
    }
    assert(first@.take(r as int) == first@);
    let result = Overview {
        schema_version: s.schema_version,
        machine_total: s.machines.len(),
        machine_statuses: status_counts(&machine_statuses),
        item_total: item_statuses.len(),
        item_statuses: status_counts(&item_statuses),
        orders: order_status_counts(&s.service_orders),
        low_stock,
        stock_total: s.stock_items.len(),
        recent_inspections: first_five(&recent),
        upcoming_orders: upcoming,
    };
    proof {
        assert(sorted_descending(all_started(s.inspections@), recent@));
        assert(sorted_by_pairs(schedule_keys(orders, up@), order@));
        assert(machine_statuses@ == machine_status_seq(s.machines@));
        assert(item_statuses@ == active_item_statuses(s.machine_items@));
        assert(result.low_stock == low_stock_count(s.stock_items@));
        assert(result.upcoming_orders@ == first_of(order@, 5).map_values(|j: usize| up@[j as int]));
        assert(up@ == upcoming_orders(orders));
    }
    result
}

/// An item status the reports count as critical.
pub open spec fn is_critical_status(st: OperationalStatus) -> bool {
    st == OperationalStatus::Critical || st == OperationalStatus::MaintenanceRequired
}

/// How many active items machine `mid` has.
pub open spec fn machine_item_count(items: Seq<MachineItem>, mid: Seq<char>) -> nat {
    items.filter(|it: MachineItem| it.active && it.machine_id@ == mid).len()
}

/// How many active items of machine `mid` are critical.
pub open spec fn machine_critical_count(items: Seq<MachineItem>, mid: Seq<char>) -> nat {
    items.filter(|it: MachineItem| it.active && it.machine_id@ == mid && is_critical_status(it.status)).len()
}

/// How many machines are in zone `z`.
pub open spec fn zone_machine_count(machines: Seq<Machine>, z: Seq<char>) -> nat {
    machines.filter(|m: Machine| m.zone@ == z).len()
}

/// The active items of the machines of zone `z`, machine by machine.
pub open spec fn zone_item_sum(machines: Seq<Machine>, items: Seq<MachineItem>, z: Seq<char>) -> nat
    decreases machines.len(),
{
    if machines.len() == 0 {
        0
    } else {
        zone_item_sum(machines.drop_last(), items, z) + if machines.last().zone@ == z {
            machine_item_count(items, machines.last().id@)
        } else {
            0
        }
    }
}

/// The critical active items of the machines of zone `z`, machine by machine.
pub open spec fn zone_critical_sum(machines: Seq<Machine>, items: Seq<MachineItem>, z: Seq<char>) -> nat
    decreases machines.len(),
{
    if machines.len() == 0 {
        0
    } else {
        zone_critical_sum(machines.drop_last(), items, z) + if machines.last().zone@ == z {
            machine_critical_count(items, machines.last().id@)
        } else {
            0
        }
    }
}

/// One zone of the report: its machines, their active items and the critical ones.
#[derive(Debug, Clone)]
pub struct ZoneRow {
    pub zone: String,
    pub machines: usize,
    pub items: u128,
    pub critical_items: u128,
}

/// A critical item of the report, with the positions of its machine and category.
#[derive(Debug, Clone)]
pub struct CriticalRow {
    pub item: usize,
    pub machine: Option<usize>,
    pub category: Option<usize>,
}

/// The reports: the overview, each zone in order, the critical items and every
/// inspection, latest started first.
#[derive(Debug, Clone)]
pub struct Reports {
    pub overview: Overview,
    pub zones: Vec<ZoneRow>,
    pub critical_items: Vec<CriticalRow>,
    pub recent_inspections: Vec<usize>,
}

/// An active item with a critical status.
pub open spec fn is_critical_item(it: MachineItem) -> bool {
    it.active && is_critical_status(it.status)
}

/// The zone names of the rows.
pub open spec fn zone_names(rows: Seq<ZoneRow>) -> Seq<Seq<char>> {
    rows.map_values(|r: ZoneRow| r.zone@)
}

/// `r` is the report on the state.
pub open spec fn is_reports(r: Reports, s: ApplicationState) -> bool {
    let crit = positions_where(s.machine_items@.len(), |i: int| is_critical_item(s.machine_items@[i]));
    &&& is_overview(r.overview, s)
    &&& is_sorted_set(s.machines@.map_values(|m: Machine| m.zone@), zone_names(r.zones@))
    &&& forall|k: int|
        0 <= k < r.zones@.len() ==> {
            let z = (#[trigger] r.zones@[k]).zone@;
            &&& r.zones@[k].machines == zone_machine_count(s.machines@, z)
            &&& r.zones@[k].items == zone_item_sum(s.machines@, s.machine_items@, z)
            &&& r.zones@[k].critical_items == zone_critical_sum(s.machines@, s.machine_items@, z)
        }
    &&& r.critical_items@.len() == crit.len()
    &&& forall|k: int|
        0 <= k < crit.len() ==> {
            let it = s.machine_items@[crit[k] as int];
            &&& (#[trigger] r.critical_items@[k]).item == crit[k]
            &&& match index_of_id(s.machines@, it.machine_id@) {
                Some(m) => r.critical_items@[k].machine == Some(m as usize),
                None => r.critical_items@[k].machine is None,
            }
            &&& match index_of_id(s.item_categories@, it.category_id@) {
                Some(c) => r.critical_items@[k].category == Some(c as usize),
                None => r.critical_items@[k].category is None,
            }
        }
    &&& sorted_descending(all_started(s.inspections@), r.recent_inspections@)
}

proof fn lemma_filter_len_le<T>(s: Seq<T>, p: spec_fn(T) -> bool)
    ensures
        s.filter(p).len() <= s.len(),
    decreases s.len(),
{
    reveal(Seq::filter);
    if s.len() > 0 {
        lemma_filter_len_le(s.drop_last(), p);
    }
}

fn count_machine_items(items: &Vec<MachineItem>, mid: &str) -> (r: (usize, usize))
    ensures
        r.0 == machine_item_count(items@, mid@),
        r.1 == machine_critical_count(items@, mid@),
        r.0 <= items@.len(),
        r.1 <= items@.len(),
{
    let ghost pa = |it: MachineItem| it.active && it.machine_id@ == mid@;
    let ghost pc = |it: MachineItem| it.active && it.machine_id@ == mid@ && is_critical_status(it.status);
    let mut all: usize = 0;
    let mut crit: usize = 0;
    let mut i: usize = 0;
    while i < items.len()
        invariant
            i <= items@.len(),
            pa == (|it: MachineItem| it.active && it.machine_id@ == mid@),
            pc == (|it: MachineItem| it.active && it.machine_id@ == mid@ && is_critical_status(it.status)),
            all == items@.take(i as int).filter(pa).len(),
            crit == items@.take(i as int).filter(pc).len(),
            all <= i,
            crit <= i,
        decreases items@.len() - i,
    {
        proof {
            assert(items@.take(i + 1) == items@.take(i as int).push(items@[i as int]));
            items@.take(i as int).lemma_filter_push(items@[i as int], pa);
            items@.take(i as int).lemma_filter_push(items@[i as int], pc);
        }
        let it = &items[i];
        if it.active && str_equal(it.machine_id.as_str(), mid) {
            all += 1;
            if it.status == OperationalStatus::Critical || it.status == OperationalStatus::MaintenanceRequired {
                crit += 1;
            }
        }
        i += 1;
    }
    assert(items@.take(i as int) == items@);
    (all, crit)
}

fn zone_row(s: &ApplicationState, zone: &str) -> (r: ZoneRow)
    ensures
        r.zone@ == zone@,
        r.machines == zone_machine_count(s.machines@, zone@),
        r.items == zone_item_sum(s.machines@, s.machine_items@, zone@),
        r.critical_items == zone_critical_sum(s.machines@, s.machine_items@, zone@),
{
    let ghost ms = s.machines@;
    let ghost n = s.machine_items@.len();
    let ghost pz = |m: Machine| m.zone@ == zone@;
    let mut machines: usize = 0;
    let mut items: u128 = 0;
    let mut critical: u128 = 0;
    let mut j: usize = 0;
    let machine_count = s.machines.len();
    let item_count = s.machine_items.len();
    proof {
        assert(ms.len() == machine_count && n == item_count);
        assert(ms.len() * n <= usize::MAX * usize::MAX) by (nonlinear_arith)
            requires
                ms.len() <= usize::MAX,
                n <= usize::MAX,
        ;
    }
    while j < s.machines.len()
        invariant
            j <= ms.len(),
            ms == s.machines@,
            n == s.machine_items@.len(),
            ms.len() * n <= usize::MAX * usize::MAX,
            pz == (|m: Machine| m.zone@ == zone@),
            machines == ms.take(j as int).filter(pz).len(),
            machines <= j,
            items == zone_item_sum(ms.take(j as int), s.machine_items@, zone@),
            critical == zone_critical_sum(ms.take(j as int), s.machine_items@, zone@),
            items <= j * n,
            critical <= j * n,
        decreases ms.len() - j,
    {
        let m = &s.machines[j];
        proof {
            assert(ms.take(j + 1) == ms.take(j as int).push(*m));
            assert(ms.take(j + 1).drop_last() == ms.take(j as int));
            ms.take(j as int).lemma_filter_push(*m, pz);
            assert((j + 1) * n == j * n + n) by (nonlinear_arith);
            assert((j + 1) * n <= ms.len() * n) by (nonlinear_arith)
                requires
                    j + 1 <= ms.len(),
            ;
        }
        if str_equal(m.zone.as_str(), zone) {
            let (all, crit) = count_machine_items(&s.machine_items, m.id.as_str());
            machines += 1;
            items = items + all as u128;
            critical = critical + crit as u128;
        }
        j += 1;
    }
    assert(ms.take(j as int) == ms);
    ZoneRow { zone: crate::text::owned(zone), machines, items, critical_items: critical }
}

/// Computes the reports.
pub fn reports(s: &ApplicationState) -> (r: Reports)
    ensures
        is_reports(r, *s),
{
    let mut zone_texts: Vec<String> = Vec::new();
    let mut i: usize = 0;
    while i < s.machines.len()
        invariant
            i <= s.machines@.len(),
            views(zone_texts@) == s.machines@.take(i as int).map_values(|m: Machine| m.zone@),
        decreases s.machines@.len() - i,
    {
        let ghost zb = views(zone_texts@);
        zone_texts.push(s.machines[i].zone.clone());
        proof {
            assert(views(zone_texts@) =~= zb.push(s.machines@[i as int].zone@));
            assert(s.machines@.take(i + 1) == s.machines@.take(i as int).push(s.machines@[i as int]));
            assert(s.machines@.take(i + 1).map_values(|m: Machine| m.zone@) =~= s.machines@.take(i as int).map_values(
                |m: Machine| m.zone@,
            ).push(s.machines@[i as int].zone@));
        }
        i += 1;
    }
    assert(s.machines@.take(i as int) == s.machines@);
    let zones = sorted_set(&zone_texts);
    let mut rows: Vec<ZoneRow> = Vec::new();
    let mut k: usize = 0;
    while k < zones.len()
        invariant
            k <= zones@.len(),
            rows@.len() == k,
            forall|q: int|
                0 <= q < k ==> {
                    let z = (#[trigger] rows@[q]).zone@;
                    &&& z == zones@[q]@
                    &&& rows@[q].machines == zone_machine_count(s.machines@, z)
                    &&& rows@[q].items == zone_item_sum(s.machines@, s.machine_items@, z)
                    &&& rows@[q].critical_items == zone_critical_sum(s.machines@, s.machine_items@, z)
                },
        decreases zones@.len() - k,
    {
        rows.push(zone_row(s, zones[k].as_str()));
        k += 1;
    }
    proof {
        assert(zone_names(rows@) =~= views(zones@));
    }
    let ghost items = s.machine_items@;
    let ghost pc = |i: int| is_critical_item(items[i]);
    let mut critical: Vec<CriticalRow> = Vec::new();
    let mut j: usize = 0;
    while j < s.machine_items.len()
        invariant
            j <= items.len(),
            items == s.machine_items@,
            pc == (|i: int| is_critical_item(items[i])),
            critical@.len() == positions_where(j as nat, pc).len(),
            forall|q: int|
                0 <= q < positions_where(j as nat, pc).len() ==> {
                    let it = items[positions_where(j as nat, pc)[q] as int];
                    &&& (#[trigger] critical@[q]).item == positions_where(j as nat, pc)[q]
                    &&& match index_of_id(s.machines@, it.machine_id@) {
                        Some(m) => critical@[q].machine == Some(m as usize),
                        None => critical@[q].machine is None,
                    }
                    &&& match index_of_id(s.item_categories@, it.category_id@) {
                        Some(c) => critical@[q].category == Some(c as usize),
                        None => critical@[q].category is None,
                    }
                },
        decreases items.len() - j,
    {
        let it = &s.machine_items[j];
        if it.active && (it.status == OperationalStatus::Critical || it.status
            == OperationalStatus::MaintenanceRequired) {
            let machine = position_of_id(&s.machines, it.machine_id.as_str());
            let category = position_of_id(&s.item_categories, it.category_id.as_str());
            critical.push(CriticalRow { item: j, machine, category });
        }
        j += 1;
    }
    Reports {
        overview: overview(s),
        zones: rows,
        critical_items: critical,
        recent_inspections: inspections_by_start(&s.inspections),
    }
}

/// What the user list shows of an account: never its credential hashes.
#[derive(Debug, Clone)]
pub struct UserListing {
    pub id: String,
    pub email: String,
    pub name: String,
    pub role: String,
    pub active: bool,
    pub maximum_repair_level: u8,
    pub has_pin: bool,
    pub auth_version: u64,
    pub created_at_ms: u64,
    pub updated_at_ms: u64,
}

/// `l` lists account `u`.
pub open spec fn lists_user(l: UserListing, u: UserAccount) -> bool {
    &&& l.id == u.id
    &&& l.email == u.email
    &&& l.name == u.name
    &&& l.role == u.role
    &&& l.active == u.active
    &&& l.maximum_repair_level == u.maximum_repair_level.value()
    &&& l.has_pin == (u.pin_hash is Some)
    &&& l.auth_version == u.auth_version
    &&& l.created_at_ms == u.created_at_ms
    &&& l.updated_at_ms == u.updated_at_ms
}

/// Lists every account without its credentials.
pub fn user_listing(s: &ApplicationState) -> (r: Vec<UserListing>)
    ensures
        r@.len() == s.user_accounts@.len(),
        forall|k: int| 0 <= k < r@.len() ==> lists_user(#[trigger] r@[k], s.user_accounts@[k]),
{
    let mut out: Vec<UserListing> = Vec::new();
    let mut i: usize = 0;
    while i < s.user_accounts.len()
        invariant
            i <= s.user_accounts@.len(),
            out@.len() == i,
            forall|k: int| 0 <= k < i ==> lists_user(#[trigger] out@[k], s.user_accounts@[k]),
        decreases s.user_accounts@.len() - i,
    {
        let u = &s.user_accounts[i];
        out.push(
            UserListing {
                id: u.id.clone(),
                email: u.email.clone(),
                name: u.name.clone(),
                role: u.role.clone(),
                active: u.active,
                maximum_repair_level: u.maximum_repair_level.get(),
                has_pin: u.pin_hash.is_some(),
                auth_version: u.auth_version,
                created_at_ms: u.created_at_ms,
                updated_at_ms: u.updated_at_ms,
            },
        );
        i += 1;
    }
    out
}

/// An account that can take work: active, and an administrator, supervisor or technician.
pub open spec fn is_operator(u: UserAccount) -> bool {
    u.active && (u.role@ == "admin"@ || u.role@ == "chefe"@ || u.role@ == "tecnico"@)
}

/// The positions of the accounts that can take work.
pub fn operators(s: &ApplicationState) -> (r: Vec<usize>)
    ensures
        r@ == positions_where(s.user_accounts@.len(), |i: int| is_operator(s.user_accounts@[i])),
{
    let ghost users = s.user_accounts@;
    let ghost p = |i: int| is_operator(users[i]);
    let mut out: Vec<usize> = Vec::new();
    let mut i: usize = 0;
    while i < s.user_accounts.len()
        invariant
            i <= users.len(),
            users == s.user_accounts@,
            p == (|i: int| is_operator(users[i])),
            out@ == positions_where(i as nat, p),
        decreases users.len() - i,
    {
        let u = &s.user_accounts[i];
        if u.active && (str_equal(u.role.as_str(), "admin") || str_equal(u.role.as_str(), "chefe") || str_equal(
            u.role.as_str(),
            "tecnico",
        )) {
            out.push(i);
        }
        i += 1;
    }
    out
}

/// Account `u` is the one asked for: by its address (trimmed and lowercased) or by its
/// identifier (trimmed).
pub open spec fn is_identity(u: UserAccount, email: Option<Seq<char>>, id: Option<Seq<char>>) -> bool {
    (email matches Some(e) && u.email@ == lowercase_of(trim(e))) || (id matches Some(i) && u.id@ == trim(i))
}

/// Finds the account asked for: the first one matching by address or by identifier.
pub fn resolve_identity(s: &ApplicationState, email: Option<&str>, id: Option<&str>) -> (r: Option<usize>)
    ensures
        ({
            let e = match email {
                Some(x) => Some(x@),
                None => None,
            };
            let i = match id {
                Some(x) => Some(x@),
                None => None,
            };
            match r {
                Some(k) => k < s.user_accounts@.len() && is_identity(s.user_accounts@[k as int], e, i) && forall|j: int|
                    0 <= j < k ==> !is_identity(#[trigger] s.user_accounts@[j], e, i),
                None => forall|j: int|
                    0 <= j < s.user_accounts@.len() ==> !is_identity(#[trigger] s.user_accounts@[j], e, i),
            }
        }),
{
    let ghost ev = match email {
        Some(x) => Some(x@),
        None => None,
    };
    let ghost iv = match id {
        Some(x) => Some(x@),
        None => None,
    };
    let wanted_email = match email {
        Some(e) => Some(to_lowercase(trimmed(e).as_str())),
        None => None,
    };
    let wanted_id = match id {
        Some(x) => Some(trimmed(x)),
        None => None,
    };
    let mut k: usize = 0;
    while k < s.user_accounts.len()
        invariant
            k <= s.user_accounts@.len(),
            ev == match email {
                Some(x) => Some(x@),
                None => None,
            },
            iv == match id {
                Some(x) => Some(x@),
                None => None,
            },
            match wanted_email {
                Some(w) => ev matches Some(e) && w@ == lowercase_of(trim(e)),
                None => ev is None,
            },
            match wanted_id {
                Some(w) => iv matches Some(i) && w@ == trim(i),
                None => iv is None,
            },
            forall|j: int| 0 <= j < k ==> !is_identity(#[trigger] s.user_accounts@[j], ev, iv),
        decreases s.user_accounts@.len() - k,
    {
        let u = &s.user_accounts[k];
        let by_email = match &wanted_email {
            Some(w) => str_equal(u.email.as_str(), w.as_str()),
            None => false,
        };
        let by_id = match &wanted_id {
            Some(w) => str_equal(u.id.as_str(), w.as_str()),
            None => false,
        };
        if by_email || by_id {
            return Some(k);
        }
        k += 1;
    }
    None
}

/// Whether a query may run: resolving an identity always may; any other query needs a
/// role with the permission the query names (none for the overview).
pub open spec fn query_allowed(name: Seq<char>, role: Option<Role>) -> bool {
    name == RESOLVE_IDENTITY@ || (role matches Some(r) && match query_permission_spec(name) {
        Some(p) => allowed(r, p),
        None => true,
    })
}

/// Whether a query may run for a role (or for a caller without one).
pub fn may_run_query(name: &str, role: Option<Role>) -> (r: bool)
    ensures
        r == query_allowed(name@, role),
{
    if str_equal(name, RESOLVE_IDENTITY) {
        return true;
    }
    match role {
        None => false,
        Some(r) => match query_permission(name) {
            Some(p) => can(r, p),
            None => true,
        },
    }
}

/// The queries the service answers.
#[derive(Debug, Clone, Copy, PartialEq, Eq, Structural)]
pub enum QueryKind {
    Overview,
    ItemCategories,
    Machines,
    ServiceOrders,
    Inspections,
    RestockRequests,
    Stock,
    Suppliers,
    Audit,
    Reports,
    Users,
    Operators,
    Identity,
    Unknown,
}

/// The query a name asks for.
pub open spec fn kind_of(name: Seq<char>) -> QueryKind {
    if name == GET_OVERVIEW@ {
        QueryKind::Overview
    } else if name == LIST_ITEM_CATEGORIES@ {
        QueryKind::ItemCategories
    } else if name == LIST_MACHINES@ {
        QueryKind::Machines
    } else if name == LIST_SERVICE_ORDERS@ {
        QueryKind::ServiceOrders
    } else if name == LIST_INSPECTIONS@ {
        QueryKind::Inspections
    } else if name == LIST_RESTOCK_REQUESTS@ {
        QueryKind::RestockRequests
    } else if name == LIST_STOCK@ {
        QueryKind::Stock
    } else if name == LIST_SUPPLIERS@ {
        QueryKind::Suppliers
    } else if name == LIST_AUDIT@ {
        QueryKind::Audit
    } else if name == GET_REPORTS@ {
        QueryKind::Reports
    } else if name == LIST_USERS@ {
        QueryKind::Users
    } else if name == LIST_OPERATORS@ {
        QueryKind::Operators
    } else if name == RESOLVE_IDENTITY@ {
        QueryKind::Identity
    } else {
        QueryKind::Unknown
    }
}

/// The query a name asks for.
pub fn query_kind(name: &str) -> (r: QueryKind)
    ensures
        r == kind_of(name@),
{
    if str_equal(name, GET_OVERVIEW) {
        QueryKind::Overview
    } else if str_equal(name, LIST_ITEM_CATEGORIES) {
        QueryKind::ItemCategories
    } else if str_equal(name, LIST_MACHINES) {
        QueryKind::Machines
    } else if str_equal(name, LIST_SERVICE_ORDERS) {
        QueryKind::ServiceOrders
    } else if str_equal(name, LIST_INSPECTIONS) {
        QueryKind::Inspections
    } else if str_equal(name, LIST_RESTOCK_REQUESTS) {
        QueryKind::RestockRequests
    } else if str_equal(name, LIST_STOCK) {
        QueryKind::Stock
    } else if str_equal(name, LIST_SUPPLIERS) {
        QueryKind::Suppliers
    } else if str_equal(name, LIST_AUDIT) {
        QueryKind::Audit
    } else if str_equal(name, GET_REPORTS) {
        QueryKind::Reports
    } else if str_equal(name, LIST_USERS) {
        QueryKind::Users
    } else if str_equal(name, LIST_OPERATORS) {
        QueryKind::Operators
    } else if str_equal(name, RESOLVE_IDENTITY) {
        QueryKind::Identity
    } else {
        QueryKind::Unknown
    }
}

} // verus!
