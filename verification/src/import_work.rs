//! Importing the work records of a legacy bundle: maintenance records become completed
//! inspections, orders become service orders with one task per target item, and valve
//! photos become reference photos of their items.
use vstd::prelude::*;

use crate::bundle::{ImportAdditions, LegacyBundle, LegacyMaintenance, LegacyOrder, LegacyPhoto};
use crate::calendar::{date_ms, date_to_ms};
use crate::fingerprint::{hash, hash_text};
use crate::legacy::{
    category_snapshot, is_category_snapshot, is_legacy_item_snapshot, join_lines, join_with_newlines,
    legacy_item_snapshot, line_if, line_of, push_line, push_line_if, push_line_of, texts_view,
};
use crate::lookup::{
    contains_id, first_index, id_is, index_of_id, is_first, lemma_first_index, lemma_first_index_concat,
    position_of_id, some_has_id,
};
use crate::model::{
    copy_text, InspectionStatus, ItemCategory, ItemInspection, Machine, MachineItem, MachineSnapshot,
    OperationalStatus, PhotoAsset, PhotoOwnerType, PhotoPurpose, ServiceOrder, ServiceOrderStatus,
    ServiceOrderTask, ServiceOrderTaskStatus,
};
use crate::policy::{normalize_tag, normalized_identifier};
use crate::text::{
    chars_of, clean_optional, clean_spec, concat2, concat3, decimal_string, decimal_text,
    lowercase_of, opt_view, owned, str_equal, to_lowercase, trim, trimmed,
};
use crate::text_order::views;

verus! {

/// The test "item with normalized code `tag`".
pub open spec fn tag_test(tag: Seq<char>) -> spec_fn(MachineItem) -> bool {
    |it: MachineItem| it.code_normalized@ == tag
}

/// The position of the first item with normalized code `tag`, if any.
pub open spec fn item_by_tag(items: Seq<MachineItem>, tag: Seq<char>) -> Option<int> {
    first_index(items, tag_test(tag))
}

fn find_item_by_tag<'a>(items: &'a Vec<MachineItem>, more: &'a Vec<MachineItem>, tag: &str) -> (r:
    Option<&'a MachineItem>)
    ensures
        match item_by_tag(items@ + more@, tag@) {
            Some(k) => r matches Some(it) && *it == (items@ + more@)[k],
            None => r is None,
        },
{
    let ghost p = tag_test(tag@);
    proof {
        lemma_first_index_concat(items@, more@, p);
    }
    let mut i: usize = 0;
    while i < items.len()
        invariant
            i <= items@.len(),
            p == tag_test(tag@),
            forall|j: int| 0 <= j < i ==> !p(#[trigger] items@[j]),
        decreases items@.len() - i,
    {
        if str_equal(items[i].code_normalized.as_str(), tag) {
            proof {
                assert(is_first(items@, p, i as int));
                lemma_first_index(items@, p);
                lemma_first_index_concat(items@, more@, p);
                assert((items@ + more@)[i as int] == items@[i as int]);
            }
            return Some(&items[i]);
        }
        i += 1;
    }
    proof {
        lemma_first_index(items@, p);
    }
    let mut j: usize = 0;
    while j < more.len()
        invariant
            j <= more@.len(),
            p == tag_test(tag@),
            first_index(items@, p) is None,
            forall|k: int| 0 <= k < j ==> !p(#[trigger] more@[k]),
        decreases more@.len() - j,
    {
        if str_equal(more[j].code_normalized.as_str(), tag) {
            proof {
                assert(is_first(more@, p, j as int));
                lemma_first_index(more@, p);
                lemma_first_index_concat(items@, more@, p);
                assert((items@ + more@)[items@.len() + j] == more@[j as int]);
            }
            return Some(&more[j]);
        }
        j += 1;
    }
    proof {
        lemma_first_index(more@, p);
        lemma_first_index_concat(items@, more@, p);
    }
    None
}

/// The category with identifier `id`, among the categories of the state and then those
/// added.
fn find_category<'a>(categories: &'a Vec<ItemCategory>, more: &'a Vec<ItemCategory>, id: &str) -> (r:
    Option<&'a ItemCategory>)
    ensures
        match index_of_id(categories@ + more@, id@) {
            Some(k) => r matches Some(c) && *c == (categories@ + more@)[k],
            None => r is None,
        },
{
    proof {
        lemma_first_index_concat(categories@, more@, id_is::<ItemCategory>(id@));
    }
    match position_of_id(categories, id) {
        Some(i) => Some(&categories[i]),
        None => match position_of_id(more, id) {
            Some(j) => {
                assert((categories@ + more@)[categories@.len() + j] == more@[j as int]);
                Some(&more[j])
            },
            None => None,
        },
    }
}

/// The identifier an imported maintenance record gets.
pub open spec fn inspection_id(old: LegacyMaintenance) -> Seq<char> {
    "legacy-inspection-"@ + hash_text(
        normalized_identifier(old.tag@) + "|"@ + old.performed_at@ + "|"@ + old.technician@ + "|"@
            + old.service@,
    )
}

/// The lines of notes an imported maintenance record keeps.
pub open spec fn bundle_maintenance_lines(old: LegacyMaintenance) -> Seq<Seq<char>> {
    line_of(""@, clean_spec(opt_view(old.notes))) + seq!["Legacy type: "@ + trim(old.maintenance_type@)]
        + line_if(old.kit_changed, "Legacy kit replacement: yes"@) + line_of(
        "Legacy signature: "@,
        clean_spec(opt_view(old.signature_ref)),
    ) + seq!["Legacy performed at: "@ + trim(old.performed_at@)]
}

/// A planned inspection: the record, its item and the item's category.
pub type InspectionEntry = (LegacyMaintenance, MachineItem, ItemCategory);

/// The inspections the maintenance records become and the warnings for those skipped, in
/// order: a record whose tag names no item, or whose item's category is missing, is skipped
/// with a warning (that gives its position); one whose identifier is taken is skipped
/// silently.
pub open spec fn inspection_plan(
    items: Seq<MachineItem>,
    categories: Seq<ItemCategory>,
    inspections: Seq<ItemInspection>,
    records: Seq<LegacyMaintenance>,
) -> (Seq<InspectionEntry>, Seq<Seq<char>>)
    decreases records.len(),
{
    if records.len() == 0 {
        (Seq::empty(), Seq::empty())
    } else {
        let (plan, warnings) = inspection_plan(items, categories, inspections, records.drop_last());
        let index = decimal_text((records.len() - 1) as nat);
        let old = records.last();
        let tag = normalized_identifier(old.tag@);
        match item_by_tag(items, tag) {
            None => (
                plan,
                warnings.push("maintenance "@ + index + " skipped: item "@ + tag + " not found"@),
            ),
            Some(k) => {
                let id = inspection_id(old);
                if some_has_id(inspections, id) || exists|j: int|
                    0 <= j < plan.len() && inspection_id((#[trigger] plan[j]).0) == id {
                    (plan, warnings)
                } else {
                    match index_of_id(categories, items[k].category_id@) {
                        None => (
                            plan,
                            warnings.push("maintenance "@ + index + " skipped: category not found"@),
                        ),
                        Some(c) => (plan.push((old, items[k], categories[c])), warnings),
                    }
                }
            },
        }
    }
}

/// When an imported maintenance record was performed: its date, else the import time.
pub open spec fn performed_or(old: LegacyMaintenance, now: u64) -> u64 {
    match date_ms(old.performed_at@) {
        Some(x) => x as u64,
        None => now,
    }
}

/// `insp` is the completed inspection planned as `e`.
pub open spec fn is_imported_inspection(insp: ItemInspection, e: InspectionEntry, now: u64) -> bool {
    let old = e.0;
    let notes = join_lines(bundle_maintenance_lines(old));
    &&& insp.id@ == inspection_id(old)
    &&& insp.service_order_task_id is None
    &&& insp.service_order_id is None
    &&& insp.machine_id == e.1.machine_id
    &&& insp.machine_item_id == e.1.id
    &&& is_category_snapshot(insp.category_snapshot, e.2)
    &&& insp.operator_id@ == "legacy-operator-"@ + hash_text(lowercase_of(old.technician@))
    &&& insp.operator_name@ == trim(old.technician@)
    &&& insp.status == InspectionStatus::Completed
    &&& insp.started_at_ms == performed_or(old, now)
    &&& insp.completed_at_ms == Some(performed_or(old, now))
    &&& insp.status_before == OperationalStatus::Unknown
    &&& insp.status_after == Some(OperationalStatus::Unknown)
    &&& insp.step_results@.len() == 0
    &&& insp.findings@.len() == 0
    &&& insp.photo_ids@.len() == 0
    &&& opt_view(insp.notes) == if notes.len() > 0 {
        Some(notes)
    } else {
        None
    }
    &&& opt_view(insp.maintenance_action) == clean_spec(Some(old.service@))
}

fn bundle_maintenance_notes(old: &LegacyMaintenance) -> (r: String)
    ensures
        r@ == join_lines(bundle_maintenance_lines(*old)),
{
    let mut lines: Vec<String> = Vec::new();
    push_line_of(&mut lines, "", &clean_optional(copy_text(&old.notes)));
    push_line(&mut lines, "Legacy type: ", trimmed(old.maintenance_type.as_str()).as_str());
    push_line_if(&mut lines, old.kit_changed, "Legacy kit replacement: yes");
    push_line_of(&mut lines, "Legacy signature: ", &clean_optional(copy_text(&old.signature_ref)));
    push_line(&mut lines, "Legacy performed at: ", trimmed(old.performed_at.as_str()).as_str());
    assert(texts_view(lines@) =~= bundle_maintenance_lines(*old));
    join_with_newlines(&lines)
}

fn imported_inspection(old: &LegacyMaintenance, item: &MachineItem, category: &ItemCategory, now: u64)
    -> (r: ItemInspection)
    ensures
        is_imported_inspection(r, (*old, *item, *category), now),
{
    let tag = normalize_tag(old.tag.as_str());
    let key = concat3(tag.as_str(), "|", old.performed_at.as_str());
    let key = concat3(key.as_str(), "|", old.technician.as_str());
    let key = concat3(key.as_str(), "|", old.service.as_str());
    let performed = match date_to_ms(old.performed_at.as_str()) {
        Some(x) => x,
        None => now,
    };
    let notes = bundle_maintenance_notes(old);
    let notes = if chars_of(notes.as_str()).len() > 0 {
        Some(notes)
    } else {
        None
    };
    let technician = to_lowercase(old.technician.as_str());
    ItemInspection {
        id: concat2("legacy-inspection-", hash(key.as_str()).as_str()),
        service_order_task_id: None,
        service_order_id: None,
        machine_id: item.machine_id.clone(),
        machine_item_id: item.id.clone(),
        category_snapshot: category_snapshot(category),
        operator_id: concat2("legacy-operator-", hash(technician.as_str()).as_str()),
        operator_name: trimmed(old.technician.as_str()),
        status: InspectionStatus::Completed,
        started_at_ms: performed,
        completed_at_ms: Some(performed),
        status_before: OperationalStatus::Unknown,
        status_after: Some(OperationalStatus::Unknown),
        step_results: Vec::new(),
        findings: Vec::new(),
        photo_ids: Vec::new(),
        notes,
        maintenance_action: clean_optional(Some(old.service.clone())),
    }
}

/// Adds a completed inspection for each maintenance record whose item is found and whose
/// identifier is not taken yet, and a warning for each record skipped (see
/// `inspection_plan`).
pub fn import_inspections(
    bundle: &LegacyBundle,
    items: &Vec<MachineItem>,
    categories: &Vec<ItemCategory>,
    inspections: &Vec<ItemInspection>,
    added: &mut ImportAdditions,
    warnings: &mut Vec<String>,
    now: u64,
)
    ensures
        *final(added) == (ImportAdditions { inspections: final(added).inspections, ..*old(added) }),
        ({
            let (plan, ws) = inspection_plan(
                items@ + old(added).machine_items@,
                categories@ + old(added).item_categories@,
                inspections@ + old(added).inspections@,
                bundle.maintenance_records@,
            );
            let n = old(added).inspections@.len();
            let out = final(added).inspections@;
            &&& out.len() == n + plan.len()
            &&& out.take(n as int) == old(added).inspections@
            &&& forall|k: int| 0 <= k < plan.len() ==> is_imported_inspection(#[trigger] out[n + k], plan[k], now)
            &&& views(final(warnings)@) == views(old(warnings)@) + ws
        }),
{
    let ghost start = *added;
    let ghost w0 = views(warnings@);
    let ghost n = added.inspections@.len();
    let ghost all_items = items@ + added.machine_items@;
    let ghost all_categories = categories@ + added.item_categories@;
    let ghost existing = inspections@ + added.inspections@;
    let records = &bundle.maintenance_records;
    let mut i: usize = 0;
    while i < records.len()
        invariant
            i <= records@.len(),
            records@ == bundle.maintenance_records@,
            n == start.inspections@.len(),
            all_items == items@ + start.machine_items@,
            all_categories == categories@ + start.item_categories@,
            existing == inspections@ + start.inspections@,
            *added == (ImportAdditions { inspections: added.inspections, ..start }),
            added.inspections@.len() == n + inspection_plan(all_items, all_categories, existing, records@.take(i as int)).0.len(),
            added.inspections@.take(n as int) == start.inspections@,
            forall|k: int|
                0 <= k < inspection_plan(all_items, all_categories, existing, records@.take(i as int)).0.len()
                    ==> is_imported_inspection(
                    #[trigger] added.inspections@[n + k],
                    inspection_plan(all_items, all_categories, existing, records@.take(i as int)).0[k],
                    now,
                ),
            views(warnings@) == w0 + inspection_plan(all_items, all_categories, existing, records@.take(i as int)).1,
        decreases records@.len() - i,
    {
        let ghost plan = inspection_plan(all_items, all_categories, existing, records@.take(i as int)).0;
        let old_entry = &records[i];
        proof {
            let t = records@.take(i + 1);
            assert(t.drop_last() == records@.take(i as int));
            assert(t.last() == *old_entry);
            assert(t.len() - 1 == i);
        }
        let tag = normalize_tag(old_entry.tag.as_str());
        match find_item_by_tag(items, &added.machine_items, tag.as_str()) {
            None => {
                let ghost wv = views(warnings@);
                let w = concat3("maintenance ", decimal_string(i as u64).as_str(), " skipped: item ");
                warnings.push(concat3(w.as_str(), tag.as_str(), " not found"));
                proof {
                    assert(views(warnings@) == wv.push(views(warnings@).last()));
                }
            },
            Some(item) => {
                let key = concat3(tag.as_str(), "|", old_entry.performed_at.as_str());
                let key = concat3(key.as_str(), "|", old_entry.technician.as_str());
                let key = concat3(key.as_str(), "|", old_entry.service.as_str());
                let id = concat2("legacy-inspection-", hash(key.as_str()).as_str());
                let known = contains_id(inspections, id.as_str()) || contains_id(&added.inspections, id.as_str());
                proof {
                    let a = added.inspections@;
                    assert(a == start.inspections@ + a.skip(n as int));
                    if some_has_id(existing, id@) {
                        let k = choose|k: int| 0 <= k < existing.len() && (#[trigger] existing[k]).id@ == id@;
                        if k < inspections@.len() {
                            assert(inspections@[k] == existing[k]);
                        } else {
                            assert(a[k - inspections@.len()] == existing[k]);
                        }
                    }
                    if exists|j: int| 0 <= j < plan.len() && inspection_id((#[trigger] plan[j]).0) == id@ {
                        let j = choose|j: int| 0 <= j < plan.len() && inspection_id((#[trigger] plan[j]).0) == id@;
                        assert(is_imported_inspection(a[n + j], plan[j], now));
                    }
                    if known {
                        if some_has_id(inspections@, id@) {
                            let k = choose|k: int| 0 <= k < inspections@.len() && (#[trigger] inspections@[k]).id@ == id@;
                            assert(existing[k] == inspections@[k]);
                        } else {
                            let k = choose|k: int| 0 <= k < a.len() && (#[trigger] a[k]).id@ == id@;
                            if k < n {
                                assert(existing[inspections@.len() + k] == a[k]);
                            } else {
                                assert(is_imported_inspection(a[n + (k - n)], plan[k - n], now));
                            }
                        }
                    }
                }
                if !known {
                    match find_category(categories, &added.item_categories, item.category_id.as_str()) {
                        None => {
                            let ghost wv = views(warnings@);
                            warnings.push(
                                concat3(
                                    "maintenance ",
                                    decimal_string(i as u64).as_str(),
                                    " skipped: category not found",
                                ),
                            );
                            proof {
                                assert(views(warnings@) == wv.push(views(warnings@).last()));
                            }
                        },
                        Some(category) => {
                            let inspection = imported_inspection(old_entry, item, category, now);
                            let ghost before = added.inspections@;
                            added.inspections.push(inspection);
                            proof {
                                assert(added.inspections@ == before.push(inspection));
                                assert(added.inspections@.take(n as int) == start.inspections@);
                                let p2 = inspection_plan(all_items, all_categories, existing, records@.take(i + 1)).0;
                                assert(p2 == plan.push((*old_entry, *item, *category)));
                                assert forall|k: int| 0 <= k < p2.len() implies is_imported_inspection(
                                    #[trigger] added.inspections@[n + k],
                                    p2[k],
                                    now,
                                ) by {
                                    if k < plan.len() {
                                        assert(added.inspections@[n + k] == before[n + k]);
                                    }
                                }
                            }
                        },
                    }
                }
            },
        }
        i += 1;
    }
    proof {
        assert(records@.take(i as int) == records@);
    }
}

/// The identifier an imported order gets.
pub open spec fn order_id(old: LegacyOrder) -> Seq<char> {
    let scheduled = match old.scheduled_for {
        Some(s) => s@,
        None => ""@,
    };
    "legacy-order-"@ + hash_text(old.zone@ + "|"@ + old.description@ + "|"@ + scheduled)
}

/// The normalized tag of the valve an order names, if it names one.
pub open spec fn wanted_tag(old: LegacyOrder) -> Option<Seq<char>> {
    match old.valve_tag {
        Some(t) => Some(normalized_identifier(t@)),
        None => None,
    }
}

/// The test "active item of machine `mid`", narrowed to tag `tag` when there is one.
pub open spec fn target_test(mid: Seq<char>, tag: Option<Seq<char>>) -> spec_fn(MachineItem) -> bool {
    |it: MachineItem|
        it.machine_id@ == mid && it.active && match tag {
            Some(t) => it.code_normalized@ == t,
            None => true,
        }
}

/// The items an order targets: the active items of its machine, only the one of its valve
/// when it names one.
pub open spec fn order_targets(items: Seq<MachineItem>, mid: Seq<char>, old: LegacyOrder) -> Seq<MachineItem> {
    items.filter(target_test(mid, wanted_tag(old)))
}

/// The test "its category is among `categories`".
pub open spec fn has_category(categories: Seq<ItemCategory>) -> spec_fn(MachineItem) -> bool {
    |it: MachineItem| index_of_id(categories, it.category_id@) is Some
}

/// The machine an order lands on.
pub type OrderEntry = (LegacyOrder, Machine);

/// The orders the legacy orders become and the warnings for those skipped, in order: an
/// order whose zone has no generated machine, or that targets no item, is skipped with a
/// warning; one whose identifier is taken is skipped silently.
pub open spec fn order_plan(
    machines: Seq<Machine>,
    items: Seq<MachineItem>,
    orders: Seq<ServiceOrder>,
    records: Seq<LegacyOrder>,
) -> (Seq<OrderEntry>, Seq<Seq<char>>)
    decreases records.len(),
{
    if records.len() == 0 {
        (Seq::empty(), Seq::empty())
    } else {
        let (plan, warnings) = order_plan(machines, items, orders, records.drop_last());
        let old = records.last();
        match crate::import_assets::machine_for_zone(machines, old.zone@) {
            None => (
                plan,
                warnings.push("order skipped: machine for zone "@ + old.zone@ + " not found"@),
            ),
            Some(k) => {
                let id = order_id(old);
                if some_has_id(orders, id) || exists|j: int|
                    0 <= j < plan.len() && order_id((#[trigger] plan[j]).0) == id {
                    (plan, warnings)
                } else if order_targets(items, machines[k].id@, old).len() == 0 {
                    (plan, warnings.push("order "@ + id + " skipped: no target items"@))
                } else {
                    (plan.push((old, machines[k])), warnings)
                }
            },
        }
    }
}

/// The state an imported order takes.
pub open spec fn bundle_order_status(old: LegacyOrder) -> ServiceOrderStatus {
    crate::legacy_terms::order_status_for(crate::legacy_terms::legacy_word(old.status@))
}

/// The description an imported order gets: its own, trimmed, then its technician.
pub open spec fn bundle_order_description(old: LegacyOrder) -> Seq<char> {
    match clean_spec(opt_view(old.technician)) {
        Some(t) => trim(old.description@) + "\nLegacy technician: "@ + t,
        None => trim(old.description@),
    }
}

/// `t` is the task of imported order `order_id` for `item` of `category`.
pub open spec fn is_bundle_task(
    t: ServiceOrderTask,
    order_id: Seq<char>,
    item: MachineItem,
    category: ItemCategory,
    status: ServiceOrderTaskStatus,
    now: u64,
) -> bool {
    &&& t.id@ == order_id + "-task-"@ + hash_text(item.id@)
    &&& t.machine_item_id == item.id
    &&& is_legacy_item_snapshot(t.item_snapshot, item, category)
    &&& t.complexity_snapshot == item.complexity_level
    &&& t.assigned_operator_id is None
    &&& t.status == status
    &&& t.started_at_ms == if status != ServiceOrderTaskStatus::Pending {
        Some(now)
    } else {
        None
    }
    &&& t.completed_at_ms == if status == ServiceOrderTaskStatus::Completed {
        Some(now)
    } else {
        None
    }
    &&& t.inspection_id is None
}

/// The tasks an order has: one for each target whose category is found, in order.
pub open spec fn tasks_for(
    tasks: Seq<ServiceOrderTask>,
    order_id: Seq<char>,
    targets: Seq<MachineItem>,
    categories: Seq<ItemCategory>,
    status: ServiceOrderTaskStatus,
    now: u64,
) -> bool {
    let tasked = targets.filter(has_category(categories));
    &&& tasks.len() == tasked.len()
    &&& forall|k: int|
        0 <= k < tasked.len() ==> is_bundle_task(
            #[trigger] tasks[k],
            order_id,
            tasked[k],
            categories[index_of_id(categories, tasked[k].category_id@)->0],
            status,
            now,
        )
}

/// `order` is the order planned as `e`, with tasks for its targets among `items`.
pub open spec fn is_imported_order(
    order: ServiceOrder,
    e: OrderEntry,
    items: Seq<MachineItem>,
    categories: Seq<ItemCategory>,
    now: u64,
) -> bool {
    let old = e.0;
    let machine = e.1;
    let status = bundle_order_status(old);
    &&& order.id@ == order_id(old)
    &&& order.machine_id == machine.id
    &&& order.machine_snapshot == MachineSnapshot {
        id: machine.id,
        code: machine.code,
        name: machine.name,
        zone: machine.zone,
        location: machine.location,
    }
    &&& order.description@ == bundle_order_description(old)
    &&& order.priority == crate::legacy_terms::order_priority_for(crate::legacy_terms::legacy_word(old.priority@))
    &&& order.status == status
    &&& order.created_by@ == match old.created_by {
        Some(by) => by@,
        None => "legacy"@,
    }
    &&& opt_view(order.scheduled_for) == clean_spec(opt_view(old.scheduled_for))
    &&& tasks_for(
        order.tasks@,
        order_id(old),
        order_targets(items, machine.id@, old),
        categories,
        crate::legacy::task_status_of(status),
        now,
    )
    &&& order.created_at_ms == now
    &&& order.started_at_ms == if status != ServiceOrderStatus::Pending {
        Some(now)
    } else {
        None
    }
    &&& order.completed_at_ms == if status == ServiceOrderStatus::Completed {
        Some(now)
    } else {
        None
    }
    &&& order.updated_at_ms == now
}

fn is_target(it: &MachineItem, mid: &str, tag: &Option<String>) -> (r: bool)
    ensures
        r == target_test(mid@, opt_view(*tag))(*it),
{
    it.active && str_equal(it.machine_id.as_str(), mid) && match tag {
        Some(t) => str_equal(it.code_normalized.as_str(), t.as_str()),
        None => true,
    }
}

fn bundle_task(
    it: &MachineItem,
    category: &ItemCategory,
    id: &str,
    status: ServiceOrderTaskStatus,
    now: u64,
) -> (r: ServiceOrderTask)
    ensures
        is_bundle_task(r, id@, *it, *category, status, now),
{
    ServiceOrderTask {
        id: concat3(id, "-task-", hash(it.id.as_str()).as_str()),
        machine_item_id: it.id.clone(),
        item_snapshot: legacy_item_snapshot(it, category),
        complexity_snapshot: it.complexity_level,
        assigned_operator_id: None,
        status,
        started_at_ms: if status != ServiceOrderTaskStatus::Pending {
            Some(now)
        } else {
            None
        },
        completed_at_ms: if status == ServiceOrderTaskStatus::Completed {
            Some(now)
        } else {
            None
        },
        inspection_id: None,
    }
}

/// `tasks` extends `t0` with the tasks of order `id` for the items of `tasked`.
pub open spec fn tasks_extend(
    tasks: Seq<ServiceOrderTask>,
    t0: Seq<ServiceOrderTask>,
    id: Seq<char>,
    tasked: Seq<MachineItem>,
    all_c: Seq<ItemCategory>,
    status: ServiceOrderTaskStatus,
    now: u64,
) -> bool {
    &&& tasks.len() == t0.len() + tasked.len()
    &&& tasks.take(t0.len() as int) == t0
    &&& forall|k: int|
        0 <= k < tasked.len() ==> is_bundle_task(
            #[trigger] tasks[t0.len() + k],
            id,
            tasked[k],
            all_c[index_of_id(all_c, tasked[k].category_id@)->0],
            status,
            now,
        )
}

fn push_tasks(
    src: &Vec<MachineItem>,
    categories: &Vec<ItemCategory>,
    more_categories: &Vec<ItemCategory>,
    mid: &str,
    tag: &Option<String>,
    id: &str,
    status: ServiceOrderTaskStatus,
    now: u64,
    tasks: &mut Vec<ServiceOrderTask>,
    any: &mut bool,
)
    ensures
        tasks_extend(
            final(tasks)@,
            old(tasks)@,
            id@,
            src@.filter(target_test(mid@, opt_view(*tag))).filter(has_category(categories@ + more_categories@)),
            categories@ + more_categories@,
            status,
            now,
        ),
        *final(any) == (*old(any) || src@.filter(target_test(mid@, opt_view(*tag))).len() > 0),
{
    let ghost all_c = categories@ + more_categories@;
    let ghost p = target_test(mid@, opt_view(*tag));
    let ghost q = has_category(all_c);
    let ghost t0 = tasks@;
    let ghost any0 = *any;
    proof {
        reveal(Seq::filter);
        assert(src@.take(0).filter(p) =~= Seq::<MachineItem>::empty());
        assert(Seq::<MachineItem>::empty().filter(q) =~= Seq::<MachineItem>::empty());
        assert(t0.take(t0.len() as int) =~= t0);
    }
    let mut i: usize = 0;
    while i < src.len()
        invariant
            i <= src@.len(),
            all_c == categories@ + more_categories@,
            p == target_test(mid@, opt_view(*tag)),
            q == has_category(all_c),
            tasks_extend(tasks@, t0, id@, src@.take(i as int).filter(p).filter(q), all_c, status, now),
            *any == (any0 || src@.take(i as int).filter(p).len() > 0),
        decreases src@.len() - i,
    {
        let ghost before = src@.take(i as int).filter(p);
        let ghost before2 = before.filter(q);
        let it = &src[i];
        proof {
            let t = src@.take(i + 1);
            assert(t == src@.take(i as int).push(*it));
            src@.take(i as int).lemma_filter_push(*it, p);
            before.lemma_filter_push(*it, q);
        }
        if is_target(it, mid, tag) {
            *any = true;
            match find_category(categories, more_categories, it.category_id.as_str()) {
                Some(category) => {
                    let task = bundle_task(it, category, id, status, now);
                    let ghost tb = tasks@;
                    tasks.push(task);
                    proof {
                        assert(tasks@ == tb.push(task));
                        assert(tasks@.take(t0.len() as int) == t0);
                        let now2 = before2.push(*it);
                        assert forall|k: int| 0 <= k < now2.len() implies is_bundle_task(
                            #[trigger] tasks@[t0.len() + k],
                            id@,
                            now2[k],
                            all_c[index_of_id(all_c, now2[k].category_id@)->0],
                            status,
                            now,
                        ) by {
                            if k < before2.len() {
                                assert(tasks@[t0.len() + k] == tb[t0.len() + k]);
                            }
                        }
                    }
                },
                None => {},
            }
        }
        i += 1;
    }
    proof {
        assert(src@.take(i as int) == src@);
    }
}

proof fn lemma_tasks_extend_compose(
    t2: Seq<ServiceOrderTask>,
    t1: Seq<ServiceOrderTask>,
    t0: Seq<ServiceOrderTask>,
    id: Seq<char>,
    a: Seq<MachineItem>,
    b: Seq<MachineItem>,
    all_c: Seq<ItemCategory>,
    status: ServiceOrderTaskStatus,
    now: u64,
)
    requires
        tasks_extend(t1, t0, id, a, all_c, status, now),
        tasks_extend(t2, t1, id, b, all_c, status, now),
    ensures
        tasks_extend(t2, t0, id, a + b, all_c, status, now),
{
    let ab = a + b;
    assert(t2.take(t0.len() as int) == t1.take(t0.len() as int));
    assert forall|k: int| 0 <= k < ab.len() implies is_bundle_task(
        #[trigger] t2[t0.len() + k],
        id,
        ab[k],
        all_c[index_of_id(all_c, ab[k].category_id@)->0],
        status,
        now,
    ) by {
        if k < a.len() {
            assert(t2[t0.len() + k] == t1[t0.len() + k]);
            assert(ab[k] == a[k]);
        } else {
            assert(ab[k] == b[k - a.len()]);
            assert(t2[t1.len() + (k - a.len())] == t2[t0.len() + k]);
        }
    }
}

fn zone_machine_ref<'a>(machines: &'a Vec<Machine>, more: &'a Vec<Machine>, zone: &str) -> (r: Option<
    &'a Machine,
>)
    ensures
        match crate::import_assets::machine_for_zone(machines@ + more@, zone@) {
            Some(k) => r matches Some(m) && *m == (machines@ + more@)[k],
            None => r is None,
        },
{
    proof {
        lemma_first_index_concat(
            machines@,
            more@,
            crate::import_assets::zone_machine_test(crate::text::uppercase_of(trim(zone@))),
        );
    }
    match crate::import_assets::find_machine_for_zone(machines, zone) {
        Some(i) => {
            assert((machines@ + more@)[i as int] == machines@[i as int]);
            Some(&machines[i])
        },
        None => match crate::import_assets::find_machine_for_zone(more, zone) {
            Some(j) => {
                assert((machines@ + more@)[machines@.len() + j] == more@[j as int]);
                Some(&more[j])
            },
            None => None,
        },
    }
}

fn text_or_legacy(value: &Option<String>) -> (r: String)
    ensures
        r@ == match value {
            Some(v) => v@,
            None => "legacy"@,
        },
{
    match value {
        Some(v) => v.clone(),
        None => owned("legacy"),
    }
}

fn bundle_description(old: &LegacyOrder) -> (r: String)
    ensures
        r@ == bundle_order_description(*old),
{
    let description = trimmed(old.description.as_str());
    match clean_optional(copy_text(&old.technician)) {
        Some(t) => concat3(description.as_str(), "\nLegacy technician: ", t.as_str()),
        None => description,
    }
}

fn bundle_order_key(old: &LegacyOrder) -> (r: String)
    ensures
        r@ == order_id(*old),
{
    let scheduled = match &old.scheduled_for {
        Some(s) => s.clone(),
        None => owned(""),
    };
    let key = concat3(old.zone.as_str(), "|", old.description.as_str());
    let key = concat3(key.as_str(), "|", scheduled.as_str());
    concat2("legacy-order-", hash(key.as_str()).as_str())
}

fn build_order(
    old_entry: &LegacyOrder,
    machine: &Machine,
    items: &Vec<MachineItem>,
    more_items: &Vec<MachineItem>,
    categories: &Vec<ItemCategory>,
    more_categories: &Vec<ItemCategory>,
    id: String,
    now: u64,
) -> (r: Option<ServiceOrder>)
    requires
        id@ == order_id(*old_entry),
    ensures
        ({
            let all_items = items@ + more_items@;
            let all_c = categories@ + more_categories@;
            match r {
                Some(order) => order_targets(all_items, machine.id@, *old_entry).len() > 0
                    && is_imported_order(order, (*old_entry, *machine), all_items, all_c, now),
                None => order_targets(all_items, machine.id@, *old_entry).len() == 0,
            }
        }),
{
    let ghost all_c = categories@ + more_categories@;
    let tag = match &old_entry.valve_tag {
        Some(t) => Some(normalize_tag(t.as_str())),
        None => None,
    };
    let status = crate::legacy_terms::order_status(old_entry.status.as_str());
    let task_status = match status {
        ServiceOrderStatus::Completed => ServiceOrderTaskStatus::Completed,
        ServiceOrderStatus::InProgress => ServiceOrderTaskStatus::InProgress,
        _ => ServiceOrderTaskStatus::Pending,
    };
    let mut tasks: Vec<ServiceOrderTask> = Vec::new();
    let mut any = false;
    let ghost t0 = tasks@;
    push_tasks(
        items,
        categories,
        more_categories,
        machine.id.as_str(),
        &tag,
        id.as_str(),
        task_status,
        now,
        &mut tasks,
        &mut any,
    );
    let ghost t1 = tasks@;
    push_tasks(
        more_items,
        categories,
        more_categories,
        machine.id.as_str(),
        &tag,
        id.as_str(),
        task_status,
        now,
        &mut tasks,
        &mut any,
    );
    proof {
        let p = target_test(machine.id@, opt_view(tag));
        let q = has_category(all_c);
        Seq::filter_distributes_over_add(items@, more_items@, p);
        Seq::filter_distributes_over_add(items@.filter(p), more_items@.filter(p), q);
        lemma_tasks_extend_compose(
            tasks@,
            t1,
            t0,
            id@,
            items@.filter(p).filter(q),
            more_items@.filter(p).filter(q),
            all_c,
            task_status,
            now,
        );
        assert(tasks@.take(0) =~= t0);
        assert(tasks@ =~= tasks@.skip(0));
    }
    if !any {
        return None;
    }
    proof {
        let all_items = items@ + more_items@;
        let targets = order_targets(all_items, machine.id@, *old_entry);
        assert(opt_view(tag) == wanted_tag(*old_entry));
        assert(task_status == crate::legacy::task_status_of(status));
        let tasked = targets.filter(has_category(all_c));
        assert forall|k: int| 0 <= k < tasked.len() implies is_bundle_task(
            #[trigger] tasks@[k],
            id@,
            tasked[k],
            all_c[index_of_id(all_c, tasked[k].category_id@)->0],
            task_status,
            now,
        ) by {
            assert(tasks@[t0.len() + k] == tasks@[k]);
        }
        assert(tasks_for(tasks@, id@, targets, all_c, task_status, now));
    }
    let order = ServiceOrder {
            id,
            machine_id: machine.id.clone(),
            machine_snapshot: MachineSnapshot {
                id: machine.id.clone(),
                code: machine.code.clone(),
                name: machine.name.clone(),
                zone: machine.zone.clone(),
                location: copy_text(&machine.location),
            },
            description: bundle_description(old_entry),
            priority: crate::legacy_terms::order_priority(old_entry.priority.as_str()),
            status,
            created_by: text_or_legacy(&old_entry.created_by),
            scheduled_for: clean_optional(copy_text(&old_entry.scheduled_for)),
            tasks,
            created_at_ms: now,
            started_at_ms: if status != ServiceOrderStatus::Pending {
                Some(now)
            } else {
                None
            },
            completed_at_ms: if status == ServiceOrderStatus::Completed {
                Some(now)
            } else {
                None
            },
            updated_at_ms: now,
        };
    Some(order)
}

/// Adds an order for each legacy order whose zone has a generated machine, whose
/// identifier is not taken yet and that targets some item, with a task for each target
/// whose category is found; and a warning for each order skipped (see `order_plan`).
pub fn import_orders(
    bundle: &LegacyBundle,
    machines: &Vec<Machine>,
    items: &Vec<MachineItem>,
    categories: &Vec<ItemCategory>,
    orders: &Vec<ServiceOrder>,
    added: &mut ImportAdditions,
    warnings: &mut Vec<String>,
    now: u64,
)
    ensures
        *final(added) == (ImportAdditions { service_orders: final(added).service_orders, ..*old(added) }),
        ({
            let all_items = items@ + old(added).machine_items@;
            let all_c = categories@ + old(added).item_categories@;
            let (plan, ws) = order_plan(
                machines@ + old(added).machines@,
                all_items,
                orders@ + old(added).service_orders@,
                bundle.orders@,
            );
            let n = old(added).service_orders@.len();
            let out = final(added).service_orders@;
            &&& out.len() == n + plan.len()
            &&& out.take(n as int) == old(added).service_orders@
            &&& forall|k: int|
                0 <= k < plan.len() ==> is_imported_order(#[trigger] out[n + k], plan[k], all_items, all_c, now)
            &&& views(final(warnings)@) == views(old(warnings)@) + ws
        }),
{
    let ghost start = *added;
    let ghost w0 = views(warnings@);
    let ghost n = added.service_orders@.len();
    let ghost all_m = machines@ + added.machines@;
    let ghost all_items = items@ + added.machine_items@;
    let ghost all_c = categories@ + added.item_categories@;
    let ghost existing = orders@ + added.service_orders@;
    let records = &bundle.orders;
    let mut i: usize = 0;
    while i < records.len()
        invariant
            i <= records@.len(),
            records@ == bundle.orders@,
            n == start.service_orders@.len(),
            all_m == machines@ + start.machines@,
            all_items == items@ + start.machine_items@,
            all_c == categories@ + start.item_categories@,
            existing == orders@ + start.service_orders@,
            *added == (ImportAdditions { service_orders: added.service_orders, ..start }),
            added.service_orders@.len() == n + order_plan(all_m, all_items, existing, records@.take(i as int)).0.len(),
            added.service_orders@.take(n as int) == start.service_orders@,
            forall|k: int|
                0 <= k < order_plan(all_m, all_items, existing, records@.take(i as int)).0.len() ==> is_imported_order(
                    #[trigger] added.service_orders@[n + k],
                    order_plan(all_m, all_items, existing, records@.take(i as int)).0[k],
                    all_items,
                    all_c,
                    now,
                ),
            views(warnings@) == w0 + order_plan(all_m, all_items, existing, records@.take(i as int)).1,
        decreases records@.len() - i,
    {
        let ghost plan = order_plan(all_m, all_items, existing, records@.take(i as int)).0;
        let old_entry = &records[i];
        proof {
            let t = records@.take(i + 1);
            assert(t.drop_last() == records@.take(i as int));
            assert(t.last() == *old_entry);
        }
        match zone_machine_ref(machines, &added.machines, old_entry.zone.as_str()) {
            None => {
                let ghost wv = views(warnings@);
                warnings.push(
                    concat3("order skipped: machine for zone ", old_entry.zone.as_str(), " not found"),
                );
                proof {
                    assert(views(warnings@) == wv.push(views(warnings@).last()));
                }
            },
            Some(machine) => {
                let id = bundle_order_key(old_entry);
                let known = contains_id(orders, id.as_str()) || contains_id(&added.service_orders, id.as_str());
                proof {
                    let a = added.service_orders@;
                    assert(a == start.service_orders@ + a.skip(n as int));
                    if some_has_id(existing, id@) {
                        let k = choose|k: int| 0 <= k < existing.len() && (#[trigger] existing[k]).id@ == id@;
                        if k < orders@.len() {
                            assert(orders@[k] == existing[k]);
                        } else {
                            assert(a[k - orders@.len()] == existing[k]);
                        }
                    }
                    if exists|j: int| 0 <= j < plan.len() && order_id((#[trigger] plan[j]).0) == id@ {
                        let j = choose|j: int| 0 <= j < plan.len() && order_id((#[trigger] plan[j]).0) == id@;
                        assert(is_imported_order(a[n + j], plan[j], all_items, all_c, now));
                    }
                    if known {
                        if some_has_id(orders@, id@) {
                            let k = choose|k: int| 0 <= k < orders@.len() && (#[trigger] orders@[k]).id@ == id@;
                            assert(existing[k] == orders@[k]);
                        } else {
                            let k = choose|k: int| 0 <= k < a.len() && (#[trigger] a[k]).id@ == id@;
                            if k < n {
                                assert(existing[orders@.len() + k] == a[k]);
                            } else {
                                assert(is_imported_order(a[n + (k - n)], plan[k - n], all_items, all_c, now));
                            }
                        }
                    }
                }
                if !known {
                    let built = build_order(
                        old_entry,
                        machine,
                        items,
                        &added.machine_items,
                        categories,
                        &added.item_categories,
                        id,
                        now,
                    );
                    if built.is_none() {
                        let ghost wv = views(warnings@);
                        warnings.push(concat3("order ", bundle_order_key(old_entry).as_str(), " skipped: no target items"));
                        proof {
                            assert(views(warnings@) == wv.push(views(warnings@).last()));
                        }
                    } else {
                        let order = built.unwrap();
                        let ghost before = added.service_orders@;
                        added.service_orders.push(order);
                        proof {
                            assert(added.service_orders@ == before.push(order));
                            assert(added.service_orders@.take(n as int) == start.service_orders@);
                            let p2 = order_plan(all_m, all_items, existing, records@.take(i + 1)).0;
                            assert(p2 == plan.push((*old_entry, *machine)));
                            assert forall|k: int| 0 <= k < p2.len() implies is_imported_order(
                                #[trigger] added.service_orders@[n + k],
                                p2[k],
                                all_items,
                                all_c,
                                now,
                            ) by {
                                if k < plan.len() {
                                    assert(added.service_orders@[n + k] == before[n + k]);
                                }
                            }
                        }
                    }
                }
            },
        }
        i += 1;
    }
    proof {
        assert(records@.take(i as int) == records@);
    }
}

/// The identifier an imported photo gets.
pub open spec fn photo_id(old: LegacyPhoto) -> Seq<char> {
    "legacy-photo-"@ + hash_text(normalized_identifier(old.tag@) + "|"@ + old.blob_ref@)
}

/// The photos the legacy photos become, with the item each belongs to, and the warnings
/// for those skipped, in order: a photo whose tag names no item is skipped with a warning,
/// one whose identifier is taken is skipped silently.
pub open spec fn photo_plan(
    items: Seq<MachineItem>,
    photos: Seq<PhotoAsset>,
    records: Seq<LegacyPhoto>,
) -> (Seq<(LegacyPhoto, MachineItem)>, Seq<Seq<char>>)
    decreases records.len(),
{
    if records.len() == 0 {
        (Seq::empty(), Seq::empty())
    } else {
        let (plan, warnings) = photo_plan(items, photos, records.drop_last());
        let old = records.last();
        let tag = normalized_identifier(old.tag@);
        match item_by_tag(items, tag) {
            None => (plan, warnings.push("photo skipped: item "@ + tag + " not found"@)),
            Some(k) => {
                let id = photo_id(old);
                if some_has_id(photos, id) || exists|j: int|
                    0 <= j < plan.len() && photo_id((#[trigger] plan[j]).0) == id {
                    (plan, warnings)
                } else {
                    (plan.push((old, items[k])), warnings)
                }
            },
        }
    }
}

/// `p` is the reference photo planned as `e`.
pub open spec fn is_imported_photo(p: PhotoAsset, e: (LegacyPhoto, MachineItem), now: u64) -> bool {
    &&& p.id@ == photo_id(e.0)
    &&& p.owner_type == PhotoOwnerType::MachineItem
    &&& p.owner_id == e.1.id
    &&& p.purpose == PhotoPurpose::Reference
    &&& p.blob_ref == e.0.blob_ref
    &&& opt_view(p.description) == Some("Legacy reference photo"@)
    &&& p.created_by@ == "migration-tool"@
    &&& p.created_at_ms == now
}

/// Adds a reference photo for each legacy photo whose tag names an item and whose
/// identifier is not taken yet, and a warning for each photo whose item is missing.
pub fn import_photos(
    bundle: &LegacyBundle,
    items: &Vec<MachineItem>,
    photos: &Vec<PhotoAsset>,
    added: &mut ImportAdditions,
    warnings: &mut Vec<String>,
    now: u64,
)
    ensures
        *final(added) == (ImportAdditions { photos: final(added).photos, ..*old(added) }),
        ({
            let (plan, ws) = photo_plan(
                items@ + old(added).machine_items@,
                photos@ + old(added).photos@,
                bundle.valve_photos@,
            );
            let n = old(added).photos@.len();
            let out = final(added).photos@;
            &&& out.len() == n + plan.len()
            &&& out.take(n as int) == old(added).photos@
            &&& forall|k: int| 0 <= k < plan.len() ==> is_imported_photo(#[trigger] out[n + k], plan[k], now)
            &&& views(final(warnings)@) == views(old(warnings)@) + ws
        }),
{
    let ghost start = *added;
    let ghost w0 = views(warnings@);
    let ghost n = added.photos@.len();
    let ghost all_items = items@ + added.machine_items@;
    let ghost existing = photos@ + added.photos@;
    let records = &bundle.valve_photos;
    let mut i: usize = 0;
    while i < records.len()
        invariant
            i <= records@.len(),
            records@ == bundle.valve_photos@,
            n == start.photos@.len(),
            all_items == items@ + start.machine_items@,
            existing == photos@ + start.photos@,
            *added == (ImportAdditions { photos: added.photos, ..start }),
            added.photos@.len() == n + photo_plan(all_items, existing, records@.take(i as int)).0.len(),
            added.photos@.take(n as int) == start.photos@,
            forall|k: int|
                0 <= k < photo_plan(all_items, existing, records@.take(i as int)).0.len() ==> is_imported_photo(
                    #[trigger] added.photos@[n + k],
                    photo_plan(all_items, existing, records@.take(i as int)).0[k],
                    now,
                ),
            views(warnings@) == w0 + photo_plan(all_items, existing, records@.take(i as int)).1,
        decreases records@.len() - i,
    {
        let ghost plan = photo_plan(all_items, existing, records@.take(i as int)).0;
        let old_entry = &records[i];
        proof {
            let t = records@.take(i + 1);
            assert(t.drop_last() == records@.take(i as int));
            assert(t.last() == *old_entry);
        }
        let tag = normalize_tag(old_entry.tag.as_str());
        match find_item_by_tag(items, &added.machine_items, tag.as_str()) {
            None => {
                let ghost wv = views(warnings@);
                warnings.push(concat3("photo skipped: item ", tag.as_str(), " not found"));
                proof {
                    assert(views(warnings@) == wv.push(views(warnings@).last()));
                }
            },
            Some(item) => {
                let id = concat2(
                    "legacy-photo-",
                    hash(concat3(tag.as_str(), "|", old_entry.blob_ref.as_str()).as_str()).as_str(),
                );
                let known = contains_id(photos, id.as_str()) || contains_id(&added.photos, id.as_str());
                proof {
                    let a = added.photos@;
                    assert(a == start.photos@ + a.skip(n as int));
                    if some_has_id(existing, id@) {
                        let k = choose|k: int| 0 <= k < existing.len() && (#[trigger] existing[k]).id@ == id@;
                        if k < photos@.len() {
                            assert(photos@[k] == existing[k]);
                        } else {
                            assert(a[k - photos@.len()] == existing[k]);
                        }
                    }
                    if exists|j: int| 0 <= j < plan.len() && photo_id((#[trigger] plan[j]).0) == id@ {
                        let j = choose|j: int| 0 <= j < plan.len() && photo_id((#[trigger] plan[j]).0) == id@;
                        assert(is_imported_photo(a[n + j], plan[j], now));
                    }
                    if known {
                        if some_has_id(photos@, id@) {
                            let k = choose|k: int| 0 <= k < photos@.len() && (#[trigger] photos@[k]).id@ == id@;
                            assert(existing[k] == photos@[k]);
                        } else {
                            let k = choose|k: int| 0 <= k < a.len() && (#[trigger] a[k]).id@ == id@;
                            if k < n {
                                assert(existing[photos@.len() + k] == a[k]);
                            } else {
                                assert(is_imported_photo(a[n + (k - n)], plan[k - n], now));
                            }
                        }
                    }
                }
                if !known {
                    let photo = PhotoAsset {
                        id,
                        owner_type: PhotoOwnerType::MachineItem,
                        owner_id: item.id.clone(),
                        purpose: PhotoPurpose::Reference,
                        blob_ref: old_entry.blob_ref.clone(),
                        description: Some(owned("Legacy reference photo")),
                        created_by: owned("migration-tool"),
                        created_at_ms: now,
                    };
                    let ghost before = added.photos@;
                    added.photos.push(photo);
                    proof {
                        assert(added.photos@ == before.push(photo));
                        assert(added.photos@.take(n as int) == start.photos@);
                        let p2 = photo_plan(all_items, existing, records@.take(i + 1)).0;
                        assert(p2 == plan.push((*old_entry, *item)));
                        assert forall|k: int| 0 <= k < p2.len() implies is_imported_photo(
                            #[trigger] added.photos@[n + k],
                            p2[k],
                            now,
                        ) by {
                            if k < plan.len() {
                                assert(added.photos@[n + k] == before[n + k]);
                            }
                        }
                    }
                }
            },
        }
        i += 1;
    }
    proof {
        assert(records@.take(i as int) == records@);
    }
}

} // verus!
