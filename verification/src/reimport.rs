//! Importing a bundle again: after a real import of a bundle, every legacy record that
//! could be imported stands in the state under the identifier its import gives, so a
//! second import of the same bundle adds nothing.
use vstd::prelude::*;

use crate::bundle::{additions_counts, import_total, LEGACY_CATEGORY_ID, LegacyValve, LegacyStock, LegacyMaintenance, LegacyOrder, LegacyPhoto, LegacyRestock, LegacySupplier};
use crate::bundle_import::{
    category_stage, imports_done, inspections_stage, is_applied, is_prepared, items_stage, machines_stage,
    orders_stage, photos_stage, restock_stage, stock_stage, suppliers_stage, PreparedMigration,
};
use crate::import_assets::{
    is_legacy_category, sorted_bundle_zones,
    has_zone_machine, is_imported_item, is_legacy_zone_machine, is_zone_machine_for, item_plan, machine_for_zone,
    zone_machine_test, zones_taken,
};
use crate::import_inventory::{
    is_auto_stock, is_imported_stock, sorted_part_numbers, refs_taken, stock_has, stock_plan, StockEntry,
    is_imported_restock, is_imported_supplier, restock_id, restock_plan, supplier_id, supplier_plan,
};
use crate::import_work::{
    inspection_id, inspection_plan, is_imported_inspection, is_imported_order, is_imported_photo, item_by_tag,
    order_id, order_plan, order_targets, photo_id, photo_plan,
};
use crate::lookup::{first_index, index_of_id, is_first, lemma_first_index, some_has_id, Identified};
use crate::model::{
    ItemCategory, ItemInspection, Machine, MachineItem, PhotoAsset, RestockRequest, ServiceOrder, StockItem,
    Supplier,
};
use crate::policy::normalized_identifier;
use crate::state::ApplicationState;
use crate::text::{is_blank, is_prefix, trim, uppercase_of};

verus! {

/// A record of `existing` keeps its identifier when records are added after it.
pub proof fn lemma_id_kept<T: Identified>(existing: Seq<T>, added: Seq<T>, id: Seq<char>)
    requires
        some_has_id(existing, id),
    ensures
        some_has_id(existing + added, id),
{
    let k = choose|k: int| 0 <= k < existing.len() && (#[trigger] existing[k]).id_view() == id;
    assert((existing + added)[k] == existing[k]);
}

/// An added record's identifier is found among the records with it.
pub proof fn lemma_id_added<T: Identified>(existing: Seq<T>, added: Seq<T>, j: int)
    requires
        0 <= j < added.len(),
    ensures
        some_has_id(existing + added, added[j].id_view()),
{
    assert((existing + added)[existing.len() + j] == added[j]);
}

/// Each legacy request has an identifier that the requests hold or that a planned
/// request gets.
proof fn lemma_restock_covered(requests: Seq<RestockRequest>, records: Seq<LegacyRestock>)
    ensures
        forall|i: int|
            0 <= i < records.len() ==> some_has_id(requests, restock_id(#[trigger] records[i]))
                || exists|j: int|
                0 <= j < restock_plan(requests, records).len() && restock_id(
                    restock_plan(requests, records)[j],
                ) == restock_id(records[i]),
    decreases records.len(),
{
    if records.len() > 0 {
        let prev_records = records.drop_last();
        lemma_restock_covered(requests, prev_records);
        let prev = restock_plan(requests, prev_records);
        let plan = restock_plan(requests, records);
        assert forall|i: int| 0 <= i < records.len() implies some_has_id(requests, restock_id(#[trigger] records[i]))
            || exists|j: int| 0 <= j < plan.len() && restock_id(plan[j]) == restock_id(records[i]) by {
            if i < records.len() - 1 {
                assert(records[i] == prev_records[i]);
                if !some_has_id(requests, restock_id(records[i])) {
                    let j = choose|j: int| 0 <= j < prev.len() && restock_id(prev[j]) == restock_id(prev_records[i]);
                    assert(plan[j] == prev[j]);
                }
            } else if !some_has_id(requests, restock_id(records[i])) {
                if plan.len() == prev.len() + 1 {
                    assert(plan[prev.len() as int] == records[i]);
                }
            }
        }
    }
}

/// Legacy requests whose identifiers the requests all hold are not imported again.
proof fn lemma_restock_none_left(requests: Seq<RestockRequest>, records: Seq<LegacyRestock>)
    requires
        forall|i: int| 0 <= i < records.len() ==> some_has_id(requests, restock_id(#[trigger] records[i])),
    ensures
        restock_plan(requests, records).len() == 0,
    decreases records.len(),
{
    if records.len() > 0 {
        let prev_records = records.drop_last();
        assert forall|i: int| 0 <= i < prev_records.len() implies some_has_id(requests, restock_id(#[trigger] prev_records[i])) by {
            assert(prev_records[i] == records[i]);
        }
        lemma_restock_none_left(requests, prev_records);
        assert(some_has_id(requests, restock_id(records[records.len() - 1])));
    }
}

/// After the requests planned for `records` are added, importing `records` again adds
/// none.
pub proof fn lemma_restock_again(
    requests: Seq<RestockRequest>,
    added: Seq<RestockRequest>,
    records: Seq<LegacyRestock>,
    now: u64,
)
    requires
        added.len() == restock_plan(requests, records).len(),
        forall|k: int|
            0 <= k < added.len() ==> is_imported_restock(#[trigger] added[k], restock_plan(requests, records)[k], now),
    ensures
        restock_plan(requests + added, records).len() == 0,
{
    let plan = restock_plan(requests, records);
    lemma_restock_covered(requests, records);
    assert forall|i: int| 0 <= i < records.len() implies some_has_id(requests + added, restock_id(#[trigger] records[i])) by {
        if some_has_id(requests, restock_id(records[i])) {
            lemma_id_kept(requests, added, restock_id(records[i]));
        } else {
            let j = choose|j: int| 0 <= j < plan.len() && restock_id(plan[j]) == restock_id(records[i]);
            assert(is_imported_restock(added[j], plan[j], now));
            lemma_id_added(requests, added, j);
        }
    }
    lemma_restock_none_left(requests + added, records);
}

/// Each legacy supplier is skipped for a blank name or contact, or has an identifier that
/// the suppliers hold or that a planned supplier gets.
proof fn lemma_supplier_covered(suppliers: Seq<Supplier>, records: Seq<LegacySupplier>)
    ensures
        forall|i: int|
            0 <= i < records.len() ==> is_blank((#[trigger] records[i]).name@) || is_blank(records[i].contact@)
                || some_has_id(suppliers, supplier_id(records[i])) || exists|j: int|
                0 <= j < supplier_plan(suppliers, records).0.len() && supplier_id(
                    supplier_plan(suppliers, records).0[j],
                ) == supplier_id(records[i]),
    decreases records.len(),
{
    if records.len() > 0 {
        let prev_records = records.drop_last();
        lemma_supplier_covered(suppliers, prev_records);
        let prev = supplier_plan(suppliers, prev_records).0;
        let plan = supplier_plan(suppliers, records).0;
        assert forall|i: int| 0 <= i < records.len() implies is_blank((#[trigger] records[i]).name@) || is_blank(
            records[i].contact@,
        ) || some_has_id(suppliers, supplier_id(records[i])) || exists|j: int|
            0 <= j < plan.len() && supplier_id(plan[j]) == supplier_id(records[i]) by {
            if i < records.len() - 1 {
                assert(records[i] == prev_records[i]);
                if !is_blank(records[i].name@) && !is_blank(records[i].contact@) && !some_has_id(
                    suppliers,
                    supplier_id(records[i]),
                ) {
                    let j = choose|j: int| 0 <= j < prev.len() && supplier_id(prev[j]) == supplier_id(prev_records[i]);
                    assert(plan[j] == prev[j]);
                }
            } else if !is_blank(records[i].name@) && !is_blank(records[i].contact@) && !some_has_id(
                suppliers,
                supplier_id(records[i]),
            ) {
                if plan.len() == prev.len() + 1 {
                    assert(plan[prev.len() as int] == records[i]);
                }
            }
        }
    }
}

/// Legacy suppliers each skipped for a blank name or contact or with an identifier the
/// suppliers hold are not imported again.
proof fn lemma_supplier_none_left(suppliers: Seq<Supplier>, records: Seq<LegacySupplier>)
    requires
        forall|i: int|
            0 <= i < records.len() ==> is_blank((#[trigger] records[i]).name@) || is_blank(records[i].contact@)
                || some_has_id(suppliers, supplier_id(records[i])),
    ensures
        supplier_plan(suppliers, records).0.len() == 0,
    decreases records.len(),
{
    if records.len() > 0 {
        let prev_records = records.drop_last();
        assert forall|i: int| 0 <= i < prev_records.len() implies is_blank((#[trigger] prev_records[i]).name@)
            || is_blank(prev_records[i].contact@) || some_has_id(suppliers, supplier_id(prev_records[i])) by {
            assert(prev_records[i] == records[i]);
        }
        lemma_supplier_none_left(suppliers, prev_records);
        assert(records[records.len() - 1] == records.last());
    }
}

/// After the suppliers planned for `records` are added, importing `records` again adds
/// none.
pub proof fn lemma_suppliers_again(
    suppliers: Seq<Supplier>,
    added: Seq<Supplier>,
    records: Seq<LegacySupplier>,
    now: u64,
)
    requires
        added.len() == supplier_plan(suppliers, records).0.len(),
        forall|k: int|
            0 <= k < added.len() ==> is_imported_supplier(#[trigger] added[k], supplier_plan(suppliers, records).0[k], now),
    ensures
        supplier_plan(suppliers + added, records).0.len() == 0,
{
    let plan = supplier_plan(suppliers, records).0;
    lemma_supplier_covered(suppliers, records);
    assert forall|i: int| 0 <= i < records.len() implies is_blank((#[trigger] records[i]).name@) || is_blank(
        records[i].contact@,
    ) || some_has_id(suppliers + added, supplier_id(records[i])) by {
        if !is_blank(records[i].name@) && !is_blank(records[i].contact@) {
            if some_has_id(suppliers, supplier_id(records[i])) {
                lemma_id_kept(suppliers, added, supplier_id(records[i]));
            } else {
                let j = choose|j: int| 0 <= j < plan.len() && supplier_id(plan[j]) == supplier_id(records[i]);
                assert(is_imported_supplier(added[j], plan[j], now));
                lemma_id_added(suppliers, added, j);
            }
        }
    }
    lemma_supplier_none_left(suppliers + added, records);
}

/// Each legacy photo names no item, or has an identifier that the photos hold or that a
/// planned photo gets.
proof fn lemma_photo_covered(items: Seq<MachineItem>, photos: Seq<PhotoAsset>, records: Seq<LegacyPhoto>)
    ensures
        forall|i: int|
            0 <= i < records.len() ==> item_by_tag(items, normalized_identifier((#[trigger] records[i]).tag@)) is None
                || some_has_id(photos, photo_id(records[i])) || exists|j: int|
                0 <= j < photo_plan(items, photos, records).0.len() && photo_id(
                    photo_plan(items, photos, records).0[j].0,
                ) == photo_id(records[i]),
    decreases records.len(),
{
    if records.len() > 0 {
        let prev_records = records.drop_last();
        lemma_photo_covered(items, photos, prev_records);
        let prev = photo_plan(items, photos, prev_records).0;
        let plan = photo_plan(items, photos, records).0;
        assert forall|i: int| 0 <= i < records.len() implies item_by_tag(
            items,
            normalized_identifier((#[trigger] records[i]).tag@),
        ) is None || some_has_id(photos, photo_id(records[i])) || exists|j: int|
            0 <= j < plan.len() && photo_id(plan[j].0) == photo_id(records[i]) by {
            if i < records.len() - 1 {
                assert(records[i] == prev_records[i]);
                if item_by_tag(items, normalized_identifier(records[i].tag@)) is Some && !some_has_id(
                    photos,
                    photo_id(records[i]),
                ) {
                    let j = choose|j: int| 0 <= j < prev.len() && photo_id(prev[j].0) == photo_id(prev_records[i]);
                    assert(plan[j] == prev[j]);
                }
            } else if item_by_tag(items, normalized_identifier(records[i].tag@)) is Some && !some_has_id(
                photos,
                photo_id(records[i]),
            ) {
                if plan.len() == prev.len() + 1 {
                    assert(plan[prev.len() as int].0 == records[i]);
                }
            }
        }
    }
}

/// Legacy photos each naming no item or with an identifier the photos hold are not
/// imported again.
proof fn lemma_photo_none_left(items: Seq<MachineItem>, photos: Seq<PhotoAsset>, records: Seq<LegacyPhoto>)
    requires
        forall|i: int|
            0 <= i < records.len() ==> item_by_tag(items, normalized_identifier((#[trigger] records[i]).tag@)) is None
                || some_has_id(photos, photo_id(records[i])),
    ensures
        photo_plan(items, photos, records).0.len() == 0,
    decreases records.len(),
{
    if records.len() > 0 {
        let prev_records = records.drop_last();
        assert forall|i: int| 0 <= i < prev_records.len() implies item_by_tag(
            items,
            normalized_identifier((#[trigger] prev_records[i]).tag@),
        ) is None || some_has_id(photos, photo_id(prev_records[i])) by {
            assert(prev_records[i] == records[i]);
        }
        lemma_photo_none_left(items, photos, prev_records);
        assert(records[records.len() - 1] == records.last());
    }
}

/// After the photos planned for `records` are added, importing `records` again for the
/// same items adds none.
pub proof fn lemma_photos_again(
    items: Seq<MachineItem>,
    photos: Seq<PhotoAsset>,
    added: Seq<PhotoAsset>,
    records: Seq<LegacyPhoto>,
    now: u64,
)
    requires
        added.len() == photo_plan(items, photos, records).0.len(),
        forall|k: int|
            0 <= k < added.len() ==> is_imported_photo(#[trigger] added[k], photo_plan(items, photos, records).0[k], now),
    ensures
        photo_plan(items, photos + added, records).0.len() == 0,
{
    let plan = photo_plan(items, photos, records).0;
    lemma_photo_covered(items, photos, records);
    assert forall|i: int| 0 <= i < records.len() implies item_by_tag(
        items,
        normalized_identifier((#[trigger] records[i]).tag@),
    ) is None || some_has_id(photos + added, photo_id(records[i])) by {
        if item_by_tag(items, normalized_identifier(records[i].tag@)) is Some {
            if some_has_id(photos, photo_id(records[i])) {
                lemma_id_kept(photos, added, photo_id(records[i]));
            } else {
                let j = choose|j: int| 0 <= j < plan.len() && photo_id(plan[j].0) == photo_id(records[i]);
                assert(is_imported_photo(added[j], plan[j], now));
                lemma_id_added(photos, added, j);
            }
        }
    }
    lemma_photo_none_left(items, photos + added, records);
}

/// Two lists of machines that agree, position by position, on what finding a zone's
/// generated machine reads: identifier, zone and code.
pub open spec fn same_zone_machines(a: Seq<Machine>, b: Seq<Machine>) -> bool {
    &&& a.len() == b.len()
    &&& forall|k: int|
        0 <= k < a.len() ==> (#[trigger] a[k]).id@ == b[k].id@ && a[k].zone@ == b[k].zone@ && a[k].code@
            == b[k].code@
}

/// Lists that agree on a test position by position have the same first match.
pub proof fn lemma_first_index_agree<T>(a: Seq<T>, b: Seq<T>, p: spec_fn(T) -> bool)
    requires
        a.len() == b.len(),
        forall|k: int| 0 <= k < a.len() ==> p(#[trigger] a[k]) == p(b[k]),
    ensures
        first_index(a, p) == first_index(b, p),
{
    lemma_first_index(a, p);
    lemma_first_index(b, p);
    if first_index(a, p) is Some {
        let i = first_index(a, p)->0;
        assert(is_first(b, p, i)) by {
            assert forall|j: int| 0 <= j < i implies !p(#[trigger] b[j]) by {
                assert(!p(a[j]));
            }
        }
    } else if first_index(b, p) is Some {
        let i = first_index(b, p)->0;
        assert(is_first(a, p, i)) by {
            assert forall|j: int| 0 <= j < i implies !p(#[trigger] a[j]) by {
                assert(!p(b[j]));
            }
        }
    }
}

/// Machines that agree on identifiers, zones and codes find the same generated machine
/// for every zone.
pub proof fn lemma_zone_lookup_agrees(a: Seq<Machine>, b: Seq<Machine>, zone: Seq<char>)
    requires
        same_zone_machines(a, b),
    ensures
        machine_for_zone(a, zone) == machine_for_zone(b, zone),
        machine_for_zone(a, zone) matches Some(k) ==> 0 <= k < a.len() && a[k].id@ == b[k].id@,
{
    let p = zone_machine_test(crate::text::uppercase_of(crate::text::trim(zone)));
    assert forall|k: int| 0 <= k < a.len() implies p(#[trigger] a[k]) == p(b[k]) by {
        assert(a[k].zone@ == b[k].zone@ && a[k].code@ == b[k].code@);
    }
    lemma_first_index_agree(a, b, p);
    lemma_first_index(a, p);
}

/// A maintenance record can be imported, identifier aside: its tag names an item whose
/// category is known.
pub open spec fn maintenance_ready(items: Seq<MachineItem>, categories: Seq<ItemCategory>, old: LegacyMaintenance) -> bool {
    match item_by_tag(items, normalized_identifier(old.tag@)) {
        Some(k) => index_of_id(categories, items[k].category_id@) is Some,
        None => false,
    }
}

proof fn lemma_inspection_covered(
    items: Seq<MachineItem>,
    categories: Seq<ItemCategory>,
    inspections: Seq<ItemInspection>,
    records: Seq<LegacyMaintenance>,
)
    ensures
        forall|i: int|
            0 <= i < records.len() ==> !maintenance_ready(items, categories, #[trigger] records[i]) || some_has_id(
                inspections,
                inspection_id(records[i]),
            ) || exists|j: int|
                0 <= j < inspection_plan(items, categories, inspections, records).0.len() && inspection_id(
                    inspection_plan(items, categories, inspections, records).0[j].0,
                ) == inspection_id(records[i]),
    decreases records.len(),
{
    if records.len() > 0 {
        let prev_records = records.drop_last();
        lemma_inspection_covered(items, categories, inspections, prev_records);
        let prev = inspection_plan(items, categories, inspections, prev_records).0;
        let plan = inspection_plan(items, categories, inspections, records).0;
        assert forall|i: int| 0 <= i < records.len() implies !maintenance_ready(items, categories, #[trigger] records[i])
            || some_has_id(inspections, inspection_id(records[i])) || exists|j: int|
            0 <= j < plan.len() && inspection_id(plan[j].0) == inspection_id(records[i]) by {
            if i < records.len() - 1 {
                assert(records[i] == prev_records[i]);
                if maintenance_ready(items, categories, records[i]) && !some_has_id(inspections, inspection_id(records[i])) {
                    let j = choose|j: int| 0 <= j < prev.len() && inspection_id(prev[j].0) == inspection_id(prev_records[i]);
                    assert(plan[j] == prev[j]);
                }
            } else if maintenance_ready(items, categories, records[i]) && !some_has_id(inspections, inspection_id(records[i])) {
                if plan.len() == prev.len() + 1 {
                    assert(plan[prev.len() as int].0 == records[i]);
                }
            }
        }
    }
}

proof fn lemma_inspection_none_left(
    items: Seq<MachineItem>,
    categories: Seq<ItemCategory>,
    inspections: Seq<ItemInspection>,
    records: Seq<LegacyMaintenance>,
)
    requires
        forall|i: int|
            0 <= i < records.len() ==> !maintenance_ready(items, categories, #[trigger] records[i]) || some_has_id(
                inspections,
                inspection_id(records[i]),
            ),
    ensures
        inspection_plan(items, categories, inspections, records).0.len() == 0,
    decreases records.len(),
{
    if records.len() > 0 {
        let prev_records = records.drop_last();
        assert forall|i: int| 0 <= i < prev_records.len() implies !maintenance_ready(
            items,
            categories,
            #[trigger] prev_records[i],
        ) || some_has_id(inspections, inspection_id(prev_records[i])) by {
            assert(prev_records[i] == records[i]);
        }
        lemma_inspection_none_left(items, categories, inspections, prev_records);
        assert(records[records.len() - 1] == records.last());
    }
}

/// After the inspections planned for `records` are added, importing `records` again for
/// the same items and categories adds none.
pub proof fn lemma_inspections_again(
    items: Seq<MachineItem>,
    categories: Seq<ItemCategory>,
    inspections: Seq<ItemInspection>,
    added: Seq<ItemInspection>,
    records: Seq<LegacyMaintenance>,
    now: u64,
)
    requires
        added.len() == inspection_plan(items, categories, inspections, records).0.len(),
        forall|k: int|
            0 <= k < added.len() ==> is_imported_inspection(
                #[trigger] added[k],
                inspection_plan(items, categories, inspections, records).0[k],
                now,
            ),
    ensures
        inspection_plan(items, categories, inspections + added, records).0.len() == 0,
{
    let plan = inspection_plan(items, categories, inspections, records).0;
    lemma_inspection_covered(items, categories, inspections, records);
    assert forall|i: int| 0 <= i < records.len() implies !maintenance_ready(items, categories, #[trigger] records[i])
        || some_has_id(inspections + added, inspection_id(records[i])) by {
        if maintenance_ready(items, categories, records[i]) {
            if some_has_id(inspections, inspection_id(records[i])) {
                lemma_id_kept(inspections, added, inspection_id(records[i]));
            } else {
                let j = choose|j: int| 0 <= j < plan.len() && inspection_id(plan[j].0) == inspection_id(records[i]);
                assert(is_imported_inspection(added[j], plan[j], now));
                lemma_id_added(inspections, added, j);
            }
        }
    }
    lemma_inspection_none_left(items, categories, inspections + added, records);
}

/// An order can be imported, identifier aside: its zone has a generated machine with
/// items it targets.
pub open spec fn order_ready(machines: Seq<Machine>, items: Seq<MachineItem>, old: LegacyOrder) -> bool {
    match machine_for_zone(machines, old.zone@) {
        Some(k) => order_targets(items, machines[k].id@, old).len() > 0,
        None => false,
    }
}

proof fn lemma_order_covered(
    machines: Seq<Machine>,
    items: Seq<MachineItem>,
    orders: Seq<ServiceOrder>,
    records: Seq<LegacyOrder>,
)
    ensures
        forall|i: int|
            0 <= i < records.len() ==> !order_ready(machines, items, #[trigger] records[i]) || some_has_id(
                orders,
                order_id(records[i]),
            ) || exists|j: int|
                0 <= j < order_plan(machines, items, orders, records).0.len() && order_id(
                    order_plan(machines, items, orders, records).0[j].0,
                ) == order_id(records[i]),
    decreases records.len(),
{
    if records.len() > 0 {
        let prev_records = records.drop_last();
        lemma_order_covered(machines, items, orders, prev_records);
        let prev = order_plan(machines, items, orders, prev_records).0;
        let plan = order_plan(machines, items, orders, records).0;
        assert forall|i: int| 0 <= i < records.len() implies !order_ready(machines, items, #[trigger] records[i])
            || some_has_id(orders, order_id(records[i])) || exists|j: int|
            0 <= j < plan.len() && order_id(plan[j].0) == order_id(records[i]) by {
            if i < records.len() - 1 {
                assert(records[i] == prev_records[i]);
                if order_ready(machines, items, records[i]) && !some_has_id(orders, order_id(records[i])) {
                    let j = choose|j: int| 0 <= j < prev.len() && order_id(prev[j].0) == order_id(prev_records[i]);
                    assert(plan[j] == prev[j]);
                }
            } else if order_ready(machines, items, records[i]) && !some_has_id(orders, order_id(records[i])) {
                if plan.len() == prev.len() + 1 {
                    assert(plan[prev.len() as int].0 == records[i]);
                }
            }
        }
    }
}

proof fn lemma_order_none_left(
    machines: Seq<Machine>,
    items: Seq<MachineItem>,
    orders: Seq<ServiceOrder>,
    records: Seq<LegacyOrder>,
)
    requires
        forall|i: int|
            0 <= i < records.len() ==> !order_ready(machines, items, #[trigger] records[i]) || some_has_id(
                orders,
                order_id(records[i]),
            ),
    ensures
        order_plan(machines, items, orders, records).0.len() == 0,
    decreases records.len(),
{
    if records.len() > 0 {
        let prev_records = records.drop_last();
        assert forall|i: int| 0 <= i < prev_records.len() implies !order_ready(machines, items, #[trigger] prev_records[i])
            || some_has_id(orders, order_id(prev_records[i])) by {
            assert(prev_records[i] == records[i]);
        }
        lemma_order_none_left(machines, items, orders, prev_records);
        assert(records[records.len() - 1] == records.last());
    }
}

/// After the orders planned for `records` are added, importing `records` again, against
/// machines that agree on identifiers, zones and codes and the same items, adds none.
pub proof fn lemma_orders_again(
    machines: Seq<Machine>,
    machines_after: Seq<Machine>,
    items: Seq<MachineItem>,
    categories: Seq<ItemCategory>,
    orders: Seq<ServiceOrder>,
    added: Seq<ServiceOrder>,
    records: Seq<LegacyOrder>,
    now: u64,
)
    requires
        same_zone_machines(machines, machines_after),
        added.len() == order_plan(machines, items, orders, records).0.len(),
        forall|k: int|
            0 <= k < added.len() ==> is_imported_order(
                #[trigger] added[k],
                order_plan(machines, items, orders, records).0[k],
                items,
                categories,
                now,
            ),
    ensures
        order_plan(machines_after, items, orders + added, records).0.len() == 0,
{
    let plan = order_plan(machines, items, orders, records).0;
    lemma_order_covered(machines, items, orders, records);
    assert forall|i: int| 0 <= i < records.len() implies !order_ready(machines_after, items, #[trigger] records[i])
        || some_has_id(orders + added, order_id(records[i])) by {
        lemma_zone_lookup_agrees(machines, machines_after, records[i].zone@);
        if order_ready(machines_after, items, records[i]) {
            assert(order_ready(machines, items, records[i]));
            if some_has_id(orders, order_id(records[i])) {
                lemma_id_kept(orders, added, order_id(records[i]));
            } else {
                let j = choose|j: int| 0 <= j < plan.len() && order_id(plan[j].0) == order_id(records[i]);
                assert(is_imported_order(added[j], plan[j], items, categories, now));
                lemma_id_added(orders, added, j);
            }
        }
    }
    lemma_order_none_left(machines_after, items, orders + added, records);
}

proof fn lemma_stock_covered(stock: Seq<StockItem>, records: Seq<LegacyStock>)
    ensures
        forall|i: int|
            0 <= i < records.len() ==> normalized_identifier((#[trigger] records[i]).reference@).len() == 0
                || stock_has(stock, normalized_identifier(records[i].reference@)) || exists|j: int|
                0 <= j < stock_plan(stock, records).0.len() && stock_plan(stock, records).0[j].1
                    == normalized_identifier(records[i].reference@),
    decreases records.len(),
{
    if records.len() > 0 {
        let prev_records = records.drop_last();
        lemma_stock_covered(stock, prev_records);
        let prev = stock_plan(stock, prev_records).0;
        let plan = stock_plan(stock, records).0;
        assert forall|i: int| 0 <= i < records.len() implies normalized_identifier(
            (#[trigger] records[i]).reference@,
        ).len() == 0 || stock_has(stock, normalized_identifier(records[i].reference@)) || exists|j: int|
            0 <= j < plan.len() && plan[j].1 == normalized_identifier(records[i].reference@) by {
            let r = normalized_identifier(records[i].reference@);
            if i < records.len() - 1 {
                assert(records[i] == prev_records[i]);
                if r.len() > 0 && !stock_has(stock, r) {
                    let j = choose|j: int| 0 <= j < prev.len() && prev[j].1 == r;
                    assert(plan[j] == prev[j]);
                }
            } else if r.len() > 0 && !stock_has(stock, r) {
                if plan.len() == prev.len() + 1 {
                    assert(plan[prev.len() as int].1 == r);
                }
            }
        }
    }
}

proof fn lemma_stock_none_left(stock: Seq<StockItem>, records: Seq<LegacyStock>)
    requires
        forall|i: int|
            0 <= i < records.len() ==> normalized_identifier((#[trigger] records[i]).reference@).len() == 0
                || stock_has(stock, normalized_identifier(records[i].reference@)),
    ensures
        stock_plan(stock, records).0.len() == 0,
    decreases records.len(),
{
    if records.len() > 0 {
        let prev_records = records.drop_last();
        assert forall|i: int| 0 <= i < prev_records.len() implies normalized_identifier(
            (#[trigger] prev_records[i]).reference@,
        ).len() == 0 || stock_has(stock, normalized_identifier(prev_records[i].reference@)) by {
            assert(prev_records[i] == records[i]);
        }
        lemma_stock_none_left(stock, prev_records);
        assert(records[records.len() - 1] == records.last());
    }
}

proof fn lemma_refs_covered(stock: Seq<StockItem>, planned: Seq<StockEntry>, refs: Seq<Seq<char>>)
    ensures
        forall|i: int|
            0 <= i < refs.len() ==> stock_has(stock, #[trigger] refs[i]) || (exists|k: int|
                0 <= k < planned.len() && planned[k].1 == refs[i]) || refs_taken(stock, planned, refs).contains(refs[i]),
    decreases refs.len(),
{
    if refs.len() > 0 {
        let prev_refs = refs.drop_last();
        lemma_refs_covered(stock, planned, prev_refs);
        let prev = refs_taken(stock, planned, prev_refs);
        let taken = refs_taken(stock, planned, refs);
        assert forall|i: int| 0 <= i < refs.len() implies stock_has(stock, #[trigger] refs[i]) || (exists|k: int|
            0 <= k < planned.len() && planned[k].1 == refs[i]) || taken.contains(refs[i]) by {
            if i < refs.len() - 1 {
                assert(refs[i] == prev_refs[i]);
                if prev.contains(refs[i]) {
                    let k = choose|k: int| 0 <= k < prev.len() && prev[k] == refs[i];
                    assert(taken[k] == prev[k]);
                }
            } else if taken.len() == prev.len() + 1 {
                assert(taken[prev.len() as int] == refs[i]);
            }
        }
    }
}

proof fn lemma_refs_none_left(stock: Seq<StockItem>, planned: Seq<StockEntry>, refs: Seq<Seq<char>>)
    requires
        forall|i: int| 0 <= i < refs.len() ==> stock_has(stock, #[trigger] refs[i]),
    ensures
        refs_taken(stock, planned, refs).len() == 0,
    decreases refs.len(),
{
    if refs.len() > 0 {
        let prev_refs = refs.drop_last();
        assert forall|i: int| 0 <= i < prev_refs.len() implies stock_has(stock, #[trigger] prev_refs[i]) by {
            assert(prev_refs[i] == refs[i]);
        }
        lemma_refs_none_left(stock, planned, prev_refs);
        assert(stock_has(stock, refs[refs.len() - 1]));
    }
}

/// A stock entry of `stock` keeps its reference when entries are added after it, and an
/// added entry's reference is found too.
proof fn lemma_stock_has_more(stock: Seq<StockItem>, added: Seq<StockItem>, r: Seq<char>)
    requires
        stock_has(stock, r) || exists|j: int| 0 <= j < added.len() && (#[trigger] added[j]).reference_normalized@ == r,
    ensures
        stock_has(stock + added, r),
{
    if stock_has(stock, r) {
        let k = choose|k: int| 0 <= k < stock.len() && (#[trigger] stock[k]).reference_normalized@ == r;
        assert((stock + added)[k] == stock[k]);
    } else {
        let j = choose|j: int| 0 <= j < added.len() && (#[trigger] added[j]).reference_normalized@ == r;
        assert((stock + added)[stock.len() + j] == added[j]);
    }
}

/// After the stock entries planned for `records` and the empty entries for the part
/// numbers `refs` are added, importing again adds no entry of either kind.
pub proof fn lemma_stock_again(
    stock: Seq<StockItem>,
    added: Seq<StockItem>,
    records: Seq<LegacyStock>,
    refs: Seq<Seq<char>>,
    now: u64,
)
    requires
        ({
            let plan = stock_plan(stock, records).0;
            let autos = refs_taken(stock, plan, refs);
            &&& added.len() == plan.len() + autos.len()
            &&& forall|k: int| 0 <= k < plan.len() ==> is_imported_stock(#[trigger] added[k], plan[k], now)
            &&& forall|k: int| 0 <= k < autos.len() ==> is_auto_stock(#[trigger] added[plan.len() + k], autos[k], now)
        }),
    ensures
        stock_plan(stock + added, records).0.len() == 0,
        refs_taken(stock + added, stock_plan(stock + added, records).0, refs).len() == 0,
{
    let plan = stock_plan(stock, records).0;
    let autos = refs_taken(stock, plan, refs);
    lemma_stock_covered(stock, records);
    assert forall|i: int| 0 <= i < records.len() implies normalized_identifier(
        (#[trigger] records[i]).reference@,
    ).len() == 0 || stock_has(stock + added, normalized_identifier(records[i].reference@)) by {
        let r = normalized_identifier(records[i].reference@);
        if r.len() > 0 {
            if !stock_has(stock, r) {
                let j = choose|j: int| 0 <= j < plan.len() && plan[j].1 == r;
                assert(is_imported_stock(added[j], plan[j], now));
            }
            lemma_stock_has_more(stock, added, r);
        }
    }
    lemma_stock_none_left(stock + added, records);
    lemma_refs_covered(stock, plan, refs);
    assert forall|i: int| 0 <= i < refs.len() implies stock_has(stock + added, #[trigger] refs[i]) by {
        let r = refs[i];
        if !stock_has(stock, r) {
            if exists|k: int| 0 <= k < plan.len() && plan[k].1 == r {
                let j = choose|j: int| 0 <= j < plan.len() && plan[j].1 == r;
                assert(is_imported_stock(added[j], plan[j], now));
            } else {
                let k = choose|k: int| 0 <= k < autos.len() && autos[k] == r;
                assert(is_auto_stock(added[plan.len() + k], autos[k], now));
            }
        }
        lemma_stock_has_more(stock, added, r);
    }
    lemma_refs_none_left(stock + added, stock_plan(stock + added, records).0, refs);
}

/// The machine and tag an item imported from valve `v` gets: none for a blank tag or zone,
/// or a zone without generated machine.
pub open spec fn valve_key(machines: Seq<Machine>, v: LegacyValve) -> Option<(Seq<char>, Seq<char>)> {
    let tag = normalized_identifier(v.tag@);
    let zone = trim(v.zone@);
    if tag.len() == 0 || zone.len() == 0 {
        None
    } else {
        match machine_for_zone(machines, zone) {
            Some(k) => Some((machines[k].id@, tag)),
            None => None,
        }
    }
}

/// Some item of `items` stands on machine `mid` with tag `tag`.
pub open spec fn has_item(items: Seq<MachineItem>, mid: Seq<char>, tag: Seq<char>) -> bool {
    exists|k: int| 0 <= k < items.len() && (#[trigger] items[k]).machine_id@ == mid && items[k].code_normalized@ == tag
}

proof fn lemma_item_covered(machines: Seq<Machine>, items: Seq<MachineItem>, valves: Seq<LegacyValve>)
    ensures
        forall|i: int|
            0 <= i < valves.len() ==> (valve_key(machines, #[trigger] valves[i]) matches Some(key) ==> has_item(
                items,
                key.0,
                key.1,
            ) || exists|j: int|
                0 <= j < item_plan(machines, items, valves).0.len() && item_plan(machines, items, valves).0[j].1
                    == key.0 && item_plan(machines, items, valves).0[j].2 == key.1),
    decreases valves.len(),
{
    if valves.len() > 0 {
        let prev_valves = valves.drop_last();
        lemma_item_covered(machines, items, prev_valves);
        let prev = item_plan(machines, items, prev_valves).0;
        let plan = item_plan(machines, items, valves).0;
        assert forall|i: int| 0 <= i < valves.len() implies (valve_key(machines, #[trigger] valves[i]) matches Some(
            key,
        ) ==> has_item(items, key.0, key.1) || exists|j: int|
            0 <= j < plan.len() && plan[j].1 == key.0 && plan[j].2 == key.1) by {
            if let Some(key) = valve_key(machines, valves[i]) {
                if i < valves.len() - 1 {
                    assert(valves[i] == prev_valves[i]);
                    if !has_item(items, key.0, key.1) {
                        let j = choose|j: int| 0 <= j < prev.len() && prev[j].1 == key.0 && prev[j].2 == key.1;
                        assert(plan[j] == prev[j]);
                    }
                } else if !has_item(items, key.0, key.1) {
                    if plan.len() == prev.len() + 1 {
                        assert(plan[prev.len() as int].1 == key.0 && plan[prev.len() as int].2 == key.1);
                    } else {
                        let j = choose|j: int| 0 <= j < prev.len() && (#[trigger] prev[j]).1 == key.0 && prev[j].2 == key.1;
                        assert(plan[j] == prev[j]);
                    }
                }
            }
        }
    }
}

proof fn lemma_item_none_left(machines: Seq<Machine>, items: Seq<MachineItem>, valves: Seq<LegacyValve>)
    requires
        forall|i: int|
            0 <= i < valves.len() ==> (valve_key(machines, #[trigger] valves[i]) matches Some(key) ==> has_item(
                items,
                key.0,
                key.1,
            )),
    ensures
        item_plan(machines, items, valves).0.len() == 0,
    decreases valves.len(),
{
    if valves.len() > 0 {
        let prev_valves = valves.drop_last();
        assert forall|i: int| 0 <= i < prev_valves.len() implies (valve_key(machines, #[trigger] prev_valves[i]) matches Some(
            key,
        ) ==> has_item(items, key.0, key.1)) by {
            assert(prev_valves[i] == valves[i]);
        }
        lemma_item_none_left(machines, items, prev_valves);
        assert(valves[valves.len() - 1] == valves.last());
    }
}

/// After the items planned for `valves` are added, importing the valves again, against
/// machines that agree on identifiers, zones and codes, adds none.
pub proof fn lemma_items_again(
    machines: Seq<Machine>,
    machines_after: Seq<Machine>,
    items: Seq<MachineItem>,
    added: Seq<MachineItem>,
    valves: Seq<LegacyValve>,
    now: u64,
)
    requires
        same_zone_machines(machines, machines_after),
        added.len() == item_plan(machines, items, valves).0.len(),
        forall|k: int| 0 <= k < added.len() ==> is_imported_item(#[trigger] added[k], item_plan(machines, items, valves).0[k], now),
    ensures
        item_plan(machines_after, items + added, valves).0.len() == 0,
{
    let plan = item_plan(machines, items, valves).0;
    lemma_item_covered(machines, items, valves);
    assert forall|i: int| 0 <= i < valves.len() implies (valve_key(machines_after, #[trigger] valves[i]) matches Some(
        key,
    ) ==> has_item(items + added, key.0, key.1)) by {
        lemma_zone_lookup_agrees(machines, machines_after, trim(valves[i].zone@));
        if let Some(key) = valve_key(machines_after, valves[i]) {
            assert(valve_key(machines, valves[i]) == Some(key));
            if has_item(items, key.0, key.1) {
                let k = choose|k: int| 0 <= k < items.len() && (#[trigger] items[k]).machine_id@ == key.0 && items[k].code_normalized@ == key.1;
                assert((items + added)[k] == items[k]);
            } else {
                let j = choose|j: int| 0 <= j < plan.len() && plan[j].1 == key.0 && plan[j].2 == key.1;
                assert(is_imported_item(added[j], plan[j], now));
                assert((items + added)[items.len() + j] == added[j]);
            }
        }
    }
    lemma_item_none_left(machines_after, items + added, valves);
}

proof fn lemma_zone_covered(machines: Seq<Machine>, zones: Seq<Seq<char>>)
    ensures
        forall|i: int|
            0 <= i < zones.len() ==> has_zone_machine(machines, uppercase_of(#[trigger] zones[i])) || exists|k: int|
                0 <= k < zones_taken(machines, zones).len() && uppercase_of(zones_taken(machines, zones)[k])
                    == uppercase_of(zones[i]),
    decreases zones.len(),
{
    if zones.len() > 0 {
        let prev_zones = zones.drop_last();
        lemma_zone_covered(machines, prev_zones);
        let prev = zones_taken(machines, prev_zones);
        let taken = zones_taken(machines, zones);
        assert forall|i: int| 0 <= i < zones.len() implies has_zone_machine(machines, uppercase_of(#[trigger] zones[i]))
            || exists|k: int| 0 <= k < taken.len() && uppercase_of(taken[k]) == uppercase_of(zones[i]) by {
            let key = uppercase_of(zones[i]);
            if !has_zone_machine(machines, key) {
                if i < zones.len() - 1 {
                    assert(zones[i] == prev_zones[i]);
                    let k = choose|k: int| 0 <= k < prev.len() && uppercase_of(prev[k]) == uppercase_of(prev_zones[i]);
                    assert(taken[k] == prev[k]);
                } else if taken.len() == prev.len() + 1 {
                    assert(taken[prev.len() as int] == zones[i]);
                } else {
                    let k = choose|k: int| 0 <= k < prev.len() && uppercase_of(#[trigger] prev[k]) == key;
                    assert(taken[k] == prev[k]);
                }
            }
        }
    }
}

proof fn lemma_zone_none_left(machines: Seq<Machine>, zones: Seq<Seq<char>>)
    requires
        forall|i: int| 0 <= i < zones.len() ==> has_zone_machine(machines, uppercase_of(#[trigger] zones[i])),
    ensures
        zones_taken(machines, zones).len() == 0,
    decreases zones.len(),
{
    if zones.len() > 0 {
        let prev_zones = zones.drop_last();
        assert forall|i: int| 0 <= i < prev_zones.len() implies has_zone_machine(machines, uppercase_of(#[trigger] prev_zones[i])) by {
            assert(prev_zones[i] == zones[i]);
        }
        lemma_zone_none_left(machines, prev_zones);
        assert(has_zone_machine(machines, uppercase_of(zones[zones.len() - 1])));
    }
}

/// After the machines generated for `zones` are added, machines that agree with them on
/// identifiers, zones and codes leave no zone to generate a machine for.
pub proof fn lemma_machines_again(
    machines: Seq<Machine>,
    added: Seq<Machine>,
    machines_after: Seq<Machine>,
    zones: Seq<Seq<char>>,
    now: u64,
)
    requires
        same_zone_machines(machines + added, machines_after),
        added.len() == zones_taken(machines, zones).len(),
        forall|k: int| 0 <= k < added.len() ==> is_legacy_zone_machine(#[trigger] added[k], zones_taken(machines, zones)[k], now),
    ensures
        zones_taken(machines_after, zones).len() == 0,
{
    let taken = zones_taken(machines, zones);
    let all = machines + added;
    lemma_zone_covered(machines, zones);
    assert forall|i: int| 0 <= i < zones.len() implies has_zone_machine(machines_after, uppercase_of(#[trigger] zones[i])) by {
        let key = uppercase_of(zones[i]);
        let m: int = if has_zone_machine(machines, key) {
            choose|m: int| 0 <= m < machines.len() && is_zone_machine_for(#[trigger] machines[m], key)
        } else {
            let k = choose|k: int| 0 <= k < taken.len() && uppercase_of(taken[k]) == key;
            assert(is_legacy_zone_machine(added[k], taken[k], now));
            assert(added[k].code@.take("LEGACY-"@.len() as int) =~= "LEGACY-"@);
            machines.len() + k
        };
        assert(is_zone_machine_for(all[m], key));
        assert(is_zone_machine_for(machines_after[m], key));
    }
    lemma_zone_none_left(machines_after, zones);
}

/// Importing a bundle again after a real import of it adds nothing: no record of any
/// kind, and so no batch event either, whatever the batch, the time or the flag of the
/// second import.
pub proof fn lemma_second_import_adds_nothing(
    first: PreparedMigration,
    second: PreparedMigration,
    bundle: crate::bundle::LegacyBundle,
    state: ApplicationState,
    after: ApplicationState,
    first_batch: Seq<char>,
    second_batch: Seq<char>,
    first_encoded: Seq<u8>,
    second_encoded: Seq<u8>,
    first_now: u64,
    second_now: u64,
    second_dry_run: bool,
)
    requires
        is_prepared(first, bundle, state, first_batch, first_encoded, first_now, false),
        is_applied(after, state, first.additions, first.audit, first_now),
        is_prepared(second, bundle, after, second_batch, second_encoded, second_now, second_dry_run),
    ensures
        second.report.imported_counts == additions_counts(second.additions),
        import_total(second.report.imported_counts) == 0,
        second.audit is None,
{
    let a = first.additions;
    let b = second.additions;
    let now = first_now;
    let machines = state.machines@ + a.machines@;
    let items = state.machine_items@ + a.machine_items@;
    let categories = state.item_categories@ + a.item_categories@;
    assert(exists|w: Seq<Seq<char>>| imports_done(bundle, state, a, w, now));
    assert(exists|w: Seq<Seq<char>>| imports_done(bundle, after, b, w, second_now));
    reveal(category_stage);
    reveal(machines_stage);
    reveal(items_stage);
    reveal(stock_stage);
    reveal(inspections_stage);
    reveal(orders_stage);
    reveal(restock_stage);
    reveal(suppliers_stage);
    reveal(photos_stage);
    // The category.
    if some_has_id(state.item_categories@, LEGACY_CATEGORY_ID@) {
        lemma_id_kept(state.item_categories@, a.item_categories@, LEGACY_CATEGORY_ID@);
    } else {
        assert(is_legacy_category(a.item_categories@[0], now));
        lemma_id_added(state.item_categories@, a.item_categories@, 0);
    }
    assert(b.item_categories@.len() == 0);
    // The machines: a refreshed machine keeps its identifier, zone and code.
    assert(same_zone_machines(machines, after.machines@)) by {
        assert forall|k: int| 0 <= k < machines.len() implies (#[trigger] machines[k]).id@ == after.machines@[k].id@
            && machines[k].zone@ == after.machines@[k].zone@ && machines[k].code@ == after.machines@[k].code@ by {
            assert(after.machines@[k] == crate::model::Machine {
                status: after.machines@[k].status,
                updated_at_ms: now,
                ..machines[k]
            });
        }
    }
    let zones = sorted_bundle_zones(bundle.valves@, bundle.orders@);
    lemma_machines_again(state.machines@, a.machines@, after.machines@, zones, now);
    assert(b.machines@.len() == 0);
    assert(after.machines@ + b.machines@ =~= after.machines@);
    // The items.
    lemma_items_again(machines, after.machines@, state.machine_items@, a.machine_items@, bundle.valves@, now);
    assert(b.machine_items@.len() == 0);
    assert(after.machine_items@ + b.machine_items@ =~= items);
    assert(after.item_categories@ + b.item_categories@ =~= categories);
    // The stock.
    lemma_stock_again(state.stock_items@, a.stock_items@, bundle.stock@, sorted_part_numbers(items), now);
    assert(b.stock_items@.len() == 0);
    // The inspections.
    lemma_inspections_again(
        items,
        categories,
        state.inspections@,
        a.inspections@,
        bundle.maintenance_records@,
        now,
    );
    assert(b.inspections@.len() == 0);
    // The orders.
    lemma_orders_again(
        machines,
        after.machines@,
        items,
        categories,
        state.service_orders@,
        a.service_orders@,
        bundle.orders@,
        now,
    );
    assert(b.service_orders@.len() == 0);
    // The restock requests, the suppliers and the photos.
    lemma_restock_again(state.restock_requests@, a.restock_requests@, bundle.restock_requests@, now);
    assert(b.restock_requests@.len() == 0);
    lemma_suppliers_again(state.suppliers@, a.suppliers@, bundle.suppliers@, now);
    assert(b.suppliers@.len() == 0);
    lemma_photos_again(items, state.photos@, a.photos@, bundle.valve_photos@, now);
    assert(b.photos@.len() == 0);
}

} // verus!
