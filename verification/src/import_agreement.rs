//! Importing is deterministic in what it reports: two imports of the same export into
//! the same state report the same counts, the same warnings and the same checksum,
//! whatever the records they add look like beyond what the plans read of them.
use vstd::prelude::*;

use crate::bundle::{additions_counts, LegacyBundle, LegacyMaintenance, LEGACY_CATEGORY_ID};
use crate::bundle_import::{
    category_stage, imports_done, inspections_stage, is_prepared, items_stage, machines_stage, orders_stage,
    photos_stage, restock_stage, stock_stage, suppliers_stage, PreparedMigration,
};
use crate::state::ApplicationState;
use crate::text_order::views;
use crate::bundle::{LegacyOrder, LegacyPhoto, LegacyValve};
use crate::import_assets::{is_imported_item, is_legacy_category, is_legacy_zone_machine, item_plan, sorted_bundle_zones, zones_taken};
use crate::import_inventory::{part_numbers, sorted_part_numbers};
use crate::import_work::{inspection_plan, item_by_tag, order_plan, order_targets, photo_plan, tag_test, target_test, wanted_tag};
use crate::lookup::{id_is, index_of_id, Identified};
use crate::model::{ItemCategory, ItemInspection, Machine, MachineItem, PhotoAsset, ServiceOrder};
use crate::policy::normalized_identifier;
use crate::reimport::{lemma_first_index_agree, lemma_zone_lookup_agrees, same_zone_machines};
use crate::text::opt_view;

verus! {

/// Items that agree, position by position, on what the imports read of them: machine,
/// tag, category, whether they are active, and part number.
pub open spec fn same_item_keys(a: Seq<MachineItem>, b: Seq<MachineItem>) -> bool {
    &&& a.len() == b.len()
    &&& forall|k: int|
        0 <= k < a.len() ==> (#[trigger] a[k]).machine_id@ == b[k].machine_id@ && a[k].code_normalized@
            == b[k].code_normalized@ && a[k].category_id@ == b[k].category_id@ && a[k].active == b[k].active
            && opt_view(a[k].replacement_specification.part_number) == opt_view(
            b[k].replacement_specification.part_number,
        )
}

/// Records that agree, position by position, on their identifiers.
pub open spec fn same_ids<T: Identified>(a: Seq<T>, b: Seq<T>) -> bool {
    &&& a.len() == b.len()
    &&& forall|k: int| 0 <= k < a.len() ==> (#[trigger] a[k]).id_view() == b[k].id_view()
}

/// Lists that agree on a test position by position keep as many elements under it.
pub proof fn lemma_filter_len_agree<T>(a: Seq<T>, b: Seq<T>, p: spec_fn(T) -> bool)
    requires
        a.len() == b.len(),
        forall|k: int| 0 <= k < a.len() ==> p(#[trigger] a[k]) == p(b[k]),
    ensures
        a.filter(p).len() == b.filter(p).len(),
    decreases a.len(),
{
    if a.len() > 0 {
        let (a0, b0) = (a.drop_last(), b.drop_last());
        assert forall|k: int| 0 <= k < a0.len() implies p(#[trigger] a0[k]) == p(b0[k]) by {
            assert(a0[k] == a[k] && b0[k] == b[k]);
        }
        lemma_filter_len_agree(a0, b0, p);
        assert(p(a.last()) == p(b.last())) by {
            assert(a.last() == a[a.len() - 1] && b.last() == b[b.len() - 1]);
        }
        assert(a0.push(a.last()) =~= a);
        assert(b0.push(b.last()) =~= b);
        a0.lemma_filter_push(a.last(), p);
        b0.lemma_filter_push(b.last(), p);
    }
}

/// Items that agree on their part numbers name the same part numbers.
pub proof fn lemma_part_numbers_agree(a: Seq<MachineItem>, b: Seq<MachineItem>)
    requires
        same_item_keys(a, b),
    ensures
        part_numbers(a) == part_numbers(b),
    decreases a.len(),
{
    let has = |it: MachineItem| it.replacement_specification.part_number is Some;
    let view = |it: MachineItem| it.replacement_specification.part_number->0@;
    if a.len() == 0 {
        assert(part_numbers(a) =~= part_numbers(b));
    } else {
        let (a0, b0) = (a.drop_last(), b.drop_last());
        assert forall|k: int| 0 <= k < a0.len() implies (#[trigger] a0[k]).machine_id@ == b0[k].machine_id@
            && a0[k].code_normalized@ == b0[k].code_normalized@ && a0[k].category_id@ == b0[k].category_id@
            && a0[k].active == b0[k].active && opt_view(a0[k].replacement_specification.part_number)
            == opt_view(b0[k].replacement_specification.part_number) by {
            assert(a0[k] == a[k] && b0[k] == b[k]);
        }
        lemma_part_numbers_agree(a0, b0);
        let (x, y) = (a.last(), b.last());
        assert(x == a[a.len() - 1] && y == b[b.len() - 1]);
        assert(opt_view(x.replacement_specification.part_number) == opt_view(y.replacement_specification.part_number));
        assert(a0.filter(has).map_values(view) == b0.filter(has).map_values(view));
        assert(a0.push(x) =~= a);
        assert(b0.push(y) =~= b);
        a0.lemma_filter_push(x, has);
        b0.lemma_filter_push(y, has);
        if has(x) {
            assert(a.filter(has) == a0.filter(has).push(x));
            assert(b.filter(has) == b0.filter(has).push(y));
            assert(a0.filter(has).push(x).map_values(view) =~= a0.filter(has).map_values(view).push(view(x)));
            assert(b0.filter(has).push(y).map_values(view) =~= b0.filter(has).map_values(view).push(view(y)));
        } else {
            assert(a.filter(has) == a0.filter(has));
            assert(b.filter(has) == b0.filter(has));
        }
    }
}

/// Items that agree on their tags are found at the same position by tag.
pub proof fn lemma_tag_lookup_agrees(a: Seq<MachineItem>, b: Seq<MachineItem>, tag: Seq<char>)
    requires
        same_item_keys(a, b),
    ensures
        item_by_tag(a, tag) == item_by_tag(b, tag),
{
    let p = tag_test(tag);
    assert forall|k: int| 0 <= k < a.len() implies p(#[trigger] a[k]) == p(b[k]) by {
        assert(a[k].code_normalized@ == b[k].code_normalized@);
    }
    lemma_first_index_agree(a, b, p);
}

/// Records that agree on their identifiers are found at the same position by identifier.
pub proof fn lemma_id_lookup_agrees<T: Identified>(a: Seq<T>, b: Seq<T>, id: Seq<char>)
    requires
        same_ids(a, b),
    ensures
        index_of_id(a, id) == index_of_id(b, id),
{
    let p = id_is::<T>(id);
    assert forall|k: int| 0 <= k < a.len() implies p(#[trigger] a[k]) == p(b[k]) by {
        assert(a[k].id_view() == b[k].id_view());
    }
    lemma_first_index_agree(a, b, p);
}

/// The item plan reads of the machines only what finding a zone's machine reads.
pub proof fn lemma_item_plan_agrees(
    m1: Seq<Machine>,
    m2: Seq<Machine>,
    items: Seq<MachineItem>,
    valves: Seq<LegacyValve>,
)
    requires
        same_zone_machines(m1, m2),
    ensures
        item_plan(m1, items, valves) == item_plan(m2, items, valves),
    decreases valves.len(),
{
    if valves.len() > 0 {
        lemma_item_plan_agrees(m1, m2, items, valves.drop_last());
        lemma_zone_lookup_agrees(m1, m2, crate::text::trim(valves.last().zone@));
    }
}

/// The inspection plan reads of the items their tags and categories, and of the
/// categories their identifiers: the same records are planned, with the same warnings.
pub proof fn lemma_inspection_plan_agrees(
    i1: Seq<MachineItem>,
    i2: Seq<MachineItem>,
    c1: Seq<ItemCategory>,
    c2: Seq<ItemCategory>,
    inspections: Seq<ItemInspection>,
    records: Seq<LegacyMaintenance>,
)
    requires
        same_item_keys(i1, i2),
        same_ids(c1, c2),
    ensures
        ({
            let (p1, w1) = inspection_plan(i1, c1, inspections, records);
            let (p2, w2) = inspection_plan(i2, c2, inspections, records);
            &&& p1.len() == p2.len()
            &&& forall|j: int| 0 <= j < p1.len() ==> (#[trigger] p1[j]).0 == p2[j].0
            &&& w1 == w2
        }),
    decreases records.len(),
{
    if records.len() > 0 {
        let prev = records.drop_last();
        lemma_inspection_plan_agrees(i1, i2, c1, c2, inspections, prev);
        let q1 = inspection_plan(i1, c1, inspections, prev).0;
        let q2 = inspection_plan(i2, c2, inspections, prev).0;
        let p1 = inspection_plan(i1, c1, inspections, records).0;
        let p2 = inspection_plan(i2, c2, inspections, records).0;
        let old = records.last();
        let tag = normalized_identifier(old.tag@);
        lemma_tag_lookup_agrees(i1, i2, tag);
        crate::lookup::lemma_first_index(i1, tag_test(tag));
        if let Some(k) = item_by_tag(i1, tag) {
            assert(i1[k].category_id@ == i2[k].category_id@);
            lemma_id_lookup_agrees(c1, c2, i1[k].category_id@);
            let id = crate::import_work::inspection_id(old);
            assert((exists|j: int| 0 <= j < q1.len() && crate::import_work::inspection_id((#[trigger] q1[j]).0) == id)
                == (exists|j: int| 0 <= j < q2.len() && crate::import_work::inspection_id((#[trigger] q2[j]).0) == id)) by {
                if exists|j: int| 0 <= j < q1.len() && crate::import_work::inspection_id((#[trigger] q1[j]).0) == id {
                    let j = choose|j: int| 0 <= j < q1.len() && crate::import_work::inspection_id((#[trigger] q1[j]).0) == id;
                    assert(q1[j].0 == q2[j].0);
                }
                if exists|j: int| 0 <= j < q2.len() && crate::import_work::inspection_id((#[trigger] q2[j]).0) == id {
                    let j = choose|j: int| 0 <= j < q2.len() && crate::import_work::inspection_id((#[trigger] q2[j]).0) == id;
                    assert(q1[j].0 == q2[j].0);
                }
            }
        }
        assert forall|j: int| 0 <= j < p1.len() implies (#[trigger] p1[j]).0 == p2[j].0 by {
            if j < q1.len() {
                assert(q1[j].0 == q2[j].0);
            }
        }
    }
}

/// The order plan reads of the machines what finding a zone's machine reads, and of the
/// items their machines, tags and activity: the same orders are planned, with the same
/// warnings.
pub proof fn lemma_order_plan_agrees(
    m1: Seq<Machine>,
    m2: Seq<Machine>,
    i1: Seq<MachineItem>,
    i2: Seq<MachineItem>,
    orders: Seq<ServiceOrder>,
    records: Seq<LegacyOrder>,
)
    requires
        same_zone_machines(m1, m2),
        same_item_keys(i1, i2),
    ensures
        ({
            let (p1, w1) = order_plan(m1, i1, orders, records);
            let (p2, w2) = order_plan(m2, i2, orders, records);
            &&& p1.len() == p2.len()
            &&& forall|j: int| 0 <= j < p1.len() ==> (#[trigger] p1[j]).0 == p2[j].0
            &&& w1 == w2
        }),
    decreases records.len(),
{
    if records.len() > 0 {
        let prev = records.drop_last();
        lemma_order_plan_agrees(m1, m2, i1, i2, orders, prev);
        let q1 = order_plan(m1, i1, orders, prev).0;
        let q2 = order_plan(m2, i2, orders, prev).0;
        let p1 = order_plan(m1, i1, orders, records).0;
        let p2 = order_plan(m2, i2, orders, records).0;
        let old = records.last();
        lemma_zone_lookup_agrees(m1, m2, old.zone@);
        if let Some(k) = crate::import_assets::machine_for_zone(m1, old.zone@) {
            let mid = m1[k].id@;
            let t = target_test(mid, wanted_tag(old));
            assert forall|x: int| 0 <= x < i1.len() implies t(#[trigger] i1[x]) == t(i2[x]) by {
                assert(i1[x].machine_id@ == i2[x].machine_id@ && i1[x].active == i2[x].active
                    && i1[x].code_normalized@ == i2[x].code_normalized@);
            }
            lemma_filter_len_agree(i1, i2, t);
            assert(order_targets(i1, mid, old).len() == order_targets(i2, mid, old).len());
            let id = crate::import_work::order_id(old);
            assert((exists|j: int| 0 <= j < q1.len() && crate::import_work::order_id((#[trigger] q1[j]).0) == id)
                == (exists|j: int| 0 <= j < q2.len() && crate::import_work::order_id((#[trigger] q2[j]).0) == id)) by {
                if exists|j: int| 0 <= j < q1.len() && crate::import_work::order_id((#[trigger] q1[j]).0) == id {
                    let j = choose|j: int| 0 <= j < q1.len() && crate::import_work::order_id((#[trigger] q1[j]).0) == id;
                    assert(q1[j].0 == q2[j].0);
                }
                if exists|j: int| 0 <= j < q2.len() && crate::import_work::order_id((#[trigger] q2[j]).0) == id {
                    let j = choose|j: int| 0 <= j < q2.len() && crate::import_work::order_id((#[trigger] q2[j]).0) == id;
                    assert(q1[j].0 == q2[j].0);
                }
            }
        }
        assert forall|j: int| 0 <= j < p1.len() implies (#[trigger] p1[j]).0 == p2[j].0 by {
            if j < q1.len() {
                assert(q1[j].0 == q2[j].0);
            }
        }
    }
}

/// The photo plan reads of the items their tags: the same photos are planned, with the
/// same warnings.
pub proof fn lemma_photo_plan_agrees(
    i1: Seq<MachineItem>,
    i2: Seq<MachineItem>,
    photos: Seq<PhotoAsset>,
    records: Seq<LegacyPhoto>,
)
    requires
        same_item_keys(i1, i2),
    ensures
        ({
            let (p1, w1) = photo_plan(i1, photos, records);
            let (p2, w2) = photo_plan(i2, photos, records);
            &&& p1.len() == p2.len()
            &&& forall|j: int| 0 <= j < p1.len() ==> (#[trigger] p1[j]).0 == p2[j].0
            &&& w1 == w2
        }),
    decreases records.len(),
{
    if records.len() > 0 {
        let prev = records.drop_last();
        lemma_photo_plan_agrees(i1, i2, photos, prev);
        let q1 = photo_plan(i1, photos, prev).0;
        let q2 = photo_plan(i2, photos, prev).0;
        let p1 = photo_plan(i1, photos, records).0;
        let p2 = photo_plan(i2, photos, records).0;
        let old = records.last();
        lemma_tag_lookup_agrees(i1, i2, normalized_identifier(old.tag@));
        let id = crate::import_work::photo_id(old);
        assert((exists|j: int| 0 <= j < q1.len() && crate::import_work::photo_id((#[trigger] q1[j]).0) == id)
            == (exists|j: int| 0 <= j < q2.len() && crate::import_work::photo_id((#[trigger] q2[j]).0) == id)) by {
            if exists|j: int| 0 <= j < q1.len() && crate::import_work::photo_id((#[trigger] q1[j]).0) == id {
                let j = choose|j: int| 0 <= j < q1.len() && crate::import_work::photo_id((#[trigger] q1[j]).0) == id;
                assert(q1[j].0 == q2[j].0);
            }
            if exists|j: int| 0 <= j < q2.len() && crate::import_work::photo_id((#[trigger] q2[j]).0) == id {
                let j = choose|j: int| 0 <= j < q2.len() && crate::import_work::photo_id((#[trigger] q2[j]).0) == id;
                assert(q1[j].0 == q2[j].0);
            }
        }
        assert forall|j: int| 0 <= j < p1.len() implies (#[trigger] p1[j]).0 == p2[j].0 by {
            if j < q1.len() {
                assert(q1[j].0 == q2[j].0);
            }
        }
    }
}

/// Two imports of the same export into the same state, as the same batch and at the same
/// time, report the same: the same counts, the same warnings in the same order, the same
/// checksum, source, batch and counts of the export; only the dry-run flag may differ.
pub proof fn lemma_import_report_is_determined(
    first: PreparedMigration,
    second: PreparedMigration,
    bundle: LegacyBundle,
    state: ApplicationState,
    batch_id: Seq<char>,
    encoded: Seq<u8>,
    now: u64,
    first_dry_run: bool,
    second_dry_run: bool,
)
    requires
        is_prepared(first, bundle, state, batch_id, encoded, now, first_dry_run),
        is_prepared(second, bundle, state, batch_id, encoded, now, second_dry_run),
    ensures
        first.report.imported_counts == second.report.imported_counts,
        views(first.report.warnings@) == views(second.report.warnings@),
        first.report.source_counts == second.report.source_counts,
        first.report.checksum@ == second.report.checksum@,
        first.report.source@ == second.report.source@,
        first.report.batch_id@ == second.report.batch_id@,
        first.audit is Some <==> second.audit is Some,
{
    let a1 = first.additions;
    let a2 = second.additions;
    let w1 = choose|w: Seq<Seq<char>>| imports_done(bundle, state, a1, w, now);
    let w2 = choose|w: Seq<Seq<char>>| imports_done(bundle, state, a2, w, now);
    assert(exists|w: Seq<Seq<char>>| imports_done(bundle, state, a1, w, now));
    assert(exists|w: Seq<Seq<char>>| imports_done(bundle, state, a2, w, now));
    reveal(category_stage);
    reveal(machines_stage);
    reveal(items_stage);
    reveal(stock_stage);
    reveal(inspections_stage);
    reveal(orders_stage);
    reveal(restock_stage);
    reveal(suppliers_stage);
    reveal(photos_stage);
    // The category.
    let c1 = state.item_categories@ + a1.item_categories@;
    let c2 = state.item_categories@ + a2.item_categories@;
    assert(same_ids(c1, c2)) by {
        assert forall|k: int| 0 <= k < c1.len() implies (#[trigger] c1[k]).id_view() == c2[k].id_view() by {
            if k >= state.item_categories@.len() {
                assert(is_legacy_category(a1.item_categories@[0], now));
                assert(is_legacy_category(a2.item_categories@[0], now));
            }
        }
    }
    // The machines.
    let m1 = state.machines@ + a1.machines@;
    let m2 = state.machines@ + a2.machines@;
    let zs = zones_taken(state.machines@, sorted_bundle_zones(bundle.valves@, bundle.orders@));
    assert(same_zone_machines(m1, m2)) by {
        assert forall|k: int| 0 <= k < m1.len() implies (#[trigger] m1[k]).id@ == m2[k].id@ && m1[k].zone@
            == m2[k].zone@ && m1[k].code@ == m2[k].code@ by {
            if k >= state.machines@.len() {
                let j = k - state.machines@.len();
                assert(is_legacy_zone_machine(a1.machines@[j], zs[j], now));
                assert(is_legacy_zone_machine(a2.machines@[j], zs[j], now));
            }
        }
    }
    // The items.
    lemma_item_plan_agrees(m1, m2, state.machine_items@, bundle.valves@);
    let plan = item_plan(m1, state.machine_items@, bundle.valves@).0;
    let i1 = state.machine_items@ + a1.machine_items@;
    let i2 = state.machine_items@ + a2.machine_items@;
    assert(same_item_keys(i1, i2)) by {
        assert forall|k: int| 0 <= k < i1.len() implies (#[trigger] i1[k]).machine_id@ == i2[k].machine_id@
            && i1[k].code_normalized@ == i2[k].code_normalized@ && i1[k].category_id@ == i2[k].category_id@
            && i1[k].active == i2[k].active && opt_view(i1[k].replacement_specification.part_number) == opt_view(
            i2[k].replacement_specification.part_number,
        ) by {
            if k >= state.machine_items@.len() {
                let j = k - state.machine_items@.len();
                assert(is_imported_item(a1.machine_items@[j], plan[j], now));
                assert(is_imported_item(a2.machine_items@[j], plan[j], now));
            }
        }
    }
    // The stock.
    lemma_part_numbers_agree(i1, i2);
    assert(sorted_part_numbers(i1) == sorted_part_numbers(i2));
    // The inspections, the orders and the photos.
    lemma_inspection_plan_agrees(
        i1,
        i2,
        c1,
        c2,
        state.inspections@,
        bundle.maintenance_records@,
    );
    lemma_order_plan_agrees(m1, m2, i1, i2, state.service_orders@, bundle.orders@);
    lemma_photo_plan_agrees(i1, i2, state.photos@, bundle.valve_photos@);
    assert(additions_counts(a1) == additions_counts(a2));
    assert(w1 == w2);
    let r1 = views(first.report.warnings@);
    let r2 = views(second.report.warnings@);
    if r1.len() > 0 && r2.len() > 0 {
        assert(r1 =~= r1.drop_last().push(r1.last()));
        assert(r2 =~= r2.drop_last().push(r2.last()));
    }
}

} // verus!
