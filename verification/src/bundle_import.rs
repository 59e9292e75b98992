//! Importing a legacy bundle into the state: what every import adds, the report, the
//! audit event of the batch, and applying it all unless the run is a dry run.
use vstd::prelude::*;

use crate::bundle::{
    additions_counts, entry_views, import_entries, import_total, source_counts, ImportAdditions,
    ImportCounts, LegacyBundle, MigrationReport, SourceCounts, LEGACY_CATEGORY_ID, LEGACY_SOURCE_NAME,
};
use crate::fingerprint::{fnv1a, hash, hash_bytes, hash_text, hex16, hex_digits};
use crate::import_assets::{
    ensure_legacy_category, import_machine_items, import_machines, is_imported_item,
    is_legacy_category, is_legacy_zone_machine, item_plan, sorted_bundle_zones, zones_taken,
};
use crate::import_inventory::{
    import_restock, import_stock, import_suppliers, is_auto_stock, is_imported_restock,
    is_imported_stock, is_imported_supplier, refs_taken, restock_plan, sorted_part_numbers,
    stock_plan, supplier_plan,
};
use crate::import_work::{
    import_inspections, import_orders, import_photos, inspection_plan, is_imported_inspection,
    is_imported_order, is_imported_photo, order_plan, photo_plan,
};
use crate::lookup::some_has_id;
use crate::machines::{machine_statuses, statuses_of};
use crate::model::{
    AuditEvent, AuditRecord, ItemCategory, ItemInspection, Machine, MachineItem, PhotoAsset,
    RestockRequest, ServiceOrder, StockItem, Supplier,
};
use crate::policy::{derive_machine_status, derived_status};
use crate::state::{ApplicationState, SCHEMA_VERSION};
use crate::text::{blank, concat2, concat3, decimal_text, is_blank, opt_view, owned, wide_decimal_string};
use crate::text_order::views;

verus! {

/// What `serde_json::to_string` gives for the map of these names to these counts.
pub uninterp spec fn counts_json(entries: Seq<(Seq<char>, usize)>) -> Result<Seq<char>, Seq<char>>;

/// Calls `serde_json::to_string` on the map of the names to the counts (a
/// `BTreeMap<String, usize>`), turning an error into its message. The result is named
/// `counts_json` of the entries; what text it is, is left to serde_json.
#[verifier::external_body]
fn encode_counts(entries: &Vec<(String, usize)>) -> (r: Result<String, String>)
    ensures
        match r {
            Ok(s) => counts_json(entry_views(entries@)) == Ok::<Seq<char>, Seq<char>>(s@),
            Err(e) => counts_json(entry_views(entries@)) == Err::<Seq<char>, Seq<char>>(e@),
        },
{
    let map: std::collections::BTreeMap<String, usize> = entries.iter().cloned().collect();
    serde_json::to_string(&map).map_err(|error| error.to_string())
}

/// Why a bundle cannot be imported.
#[derive(Debug, Clone)]
pub enum MigrationPreparationError {
    BatchIdRequired,
    EncodeBundle(String),
}

impl MigrationPreparationError {
    /// The message of the error.
    pub fn message(&self) -> (r: String)
        ensures
            r@ == match self {
                MigrationPreparationError::BatchIdRequired => "batch_id_required"@,
                MigrationPreparationError::EncodeBundle(e) => "legacy_bundle_encode_failed: "@ + e@,
            },
    {
        match self {
            MigrationPreparationError::BatchIdRequired => owned("batch_id_required"),
            MigrationPreparationError::EncodeBundle(e) => concat2("legacy_bundle_encode_failed: ", e.as_str()),
        }
    }
}

/// The valve category is added unless the state holds it.
#[verifier::opaque]
pub open spec fn category_stage(state: ApplicationState, added: Seq<ItemCategory>, now: u64) -> bool {
    if some_has_id(state.item_categories@, LEGACY_CATEGORY_ID@) {
        added.len() == 0
    } else {
        added.len() == 1 && is_legacy_category(added[0], now)
    }
}

/// A machine is added for each zone that has none (see `zones_taken`).
#[verifier::opaque]
pub open spec fn machines_stage(bundle: LegacyBundle, state: ApplicationState, added: Seq<Machine>, now: u64) -> bool {
    let zs = zones_taken(state.machines@, sorted_bundle_zones(bundle.valves@, bundle.orders@));
    &&& added.len() == zs.len()
    &&& forall|k: int| 0 <= k < zs.len() ==> is_legacy_zone_machine(#[trigger] added[k], zs[k], now)
}

/// An item is added for each valve planned by `item_plan`.
#[verifier::opaque]
pub open spec fn items_stage(
    bundle: LegacyBundle,
    state: ApplicationState,
    machines: Seq<Machine>,
    added: Seq<MachineItem>,
    now: u64,
) -> bool {
    let plan = item_plan(state.machines@ + machines, state.machine_items@, bundle.valves@).0;
    &&& added.len() == plan.len()
    &&& forall|k: int| 0 <= k < plan.len() ==> is_imported_item(#[trigger] added[k], plan[k], now)
}

/// The warnings of the item import.
pub open spec fn item_warnings(bundle: LegacyBundle, state: ApplicationState, machines: Seq<Machine>) -> Seq<Seq<char>> {
    item_plan(state.machines@ + machines, state.machine_items@, bundle.valves@).1
}

/// A stock entry is added for each legacy entry planned by `stock_plan`, then an empty one
/// for each part number `refs_taken` gives.
#[verifier::opaque]
pub open spec fn stock_stage(
    bundle: LegacyBundle,
    state: ApplicationState,
    items: Seq<MachineItem>,
    added: Seq<StockItem>,
    now: u64,
) -> bool {
    let plan = stock_plan(state.stock_items@, bundle.stock@).0;
    let autos = refs_taken(state.stock_items@, plan, sorted_part_numbers(state.machine_items@ + items));
    &&& added.len() == plan.len() + autos.len()
    &&& forall|k: int| 0 <= k < plan.len() ==> is_imported_stock(#[trigger] added[k], plan[k], now)
    &&& forall|k: int| 0 <= k < autos.len() ==> is_auto_stock(#[trigger] added[plan.len() + k], autos[k], now)
}

/// The warnings of the stock import.
pub open spec fn stock_warnings(bundle: LegacyBundle, state: ApplicationState) -> Seq<Seq<char>> {
    stock_plan(state.stock_items@, bundle.stock@).1
}

/// An inspection is added for each maintenance record planned by `inspection_plan`.
#[verifier::opaque]
pub open spec fn inspections_stage(
    bundle: LegacyBundle,
    state: ApplicationState,
    items: Seq<MachineItem>,
    categories: Seq<ItemCategory>,
    added: Seq<ItemInspection>,
    now: u64,
) -> bool {
    let plan = inspection_plan(
        state.machine_items@ + items,
        state.item_categories@ + categories,
        state.inspections@,
        bundle.maintenance_records@,
    ).0;
    &&& added.len() == plan.len()
    &&& forall|k: int| 0 <= k < plan.len() ==> is_imported_inspection(#[trigger] added[k], plan[k], now)
}

/// The warnings of the inspection import.
pub open spec fn inspection_warnings(
    bundle: LegacyBundle,
    state: ApplicationState,
    items: Seq<MachineItem>,
    categories: Seq<ItemCategory>,
) -> Seq<Seq<char>> {
    inspection_plan(
        state.machine_items@ + items,
        state.item_categories@ + categories,
        state.inspections@,
        bundle.maintenance_records@,
    ).1
}

/// An order is added for each legacy order planned by `order_plan`.
#[verifier::opaque]
pub open spec fn orders_stage(
    bundle: LegacyBundle,
    state: ApplicationState,
    machines: Seq<Machine>,
    items: Seq<MachineItem>,
    categories: Seq<ItemCategory>,
    added: Seq<ServiceOrder>,
    now: u64,
) -> bool {
    let all_items = state.machine_items@ + items;
    let plan = order_plan(state.machines@ + machines, all_items, state.service_orders@, bundle.orders@).0;
    &&& added.len() == plan.len()
    &&& forall|k: int|
        0 <= k < plan.len() ==> is_imported_order(
            #[trigger] added[k],
            plan[k],
            all_items,
            state.item_categories@ + categories,
            now,
        )
}

/// The warnings of the order import.
pub open spec fn order_warnings(
    bundle: LegacyBundle,
    state: ApplicationState,
    machines: Seq<Machine>,
    items: Seq<MachineItem>,
) -> Seq<Seq<char>> {
    order_plan(state.machines@ + machines, state.machine_items@ + items, state.service_orders@, bundle.orders@).1
}

/// A request is added for each legacy request planned by `restock_plan`.
#[verifier::opaque]
pub open spec fn restock_stage(bundle: LegacyBundle, state: ApplicationState, added: Seq<RestockRequest>, now: u64) -> bool {
    let plan = restock_plan(state.restock_requests@, bundle.restock_requests@);
    &&& added.len() == plan.len()
    &&& forall|k: int| 0 <= k < plan.len() ==> is_imported_restock(#[trigger] added[k], plan[k], now)
}

/// A supplier is added for each legacy supplier planned by `supplier_plan`.
#[verifier::opaque]
pub open spec fn suppliers_stage(bundle: LegacyBundle, state: ApplicationState, added: Seq<Supplier>, now: u64) -> bool {
    let plan = supplier_plan(state.suppliers@, bundle.suppliers@).0;
    &&& added.len() == plan.len()
    &&& forall|k: int| 0 <= k < plan.len() ==> is_imported_supplier(#[trigger] added[k], plan[k], now)
}

/// The warnings of the supplier import.
pub open spec fn supplier_warnings(bundle: LegacyBundle, state: ApplicationState) -> Seq<Seq<char>> {
    supplier_plan(state.suppliers@, bundle.suppliers@).1
}

/// A photo is added for each legacy photo planned by `photo_plan`.
#[verifier::opaque]
pub open spec fn photos_stage(
    bundle: LegacyBundle,
    state: ApplicationState,
    items: Seq<MachineItem>,
    added: Seq<PhotoAsset>,
    now: u64,
) -> bool {
    let plan = photo_plan(state.machine_items@ + items, state.photos@, bundle.valve_photos@).0;
    &&& added.len() == plan.len()
    &&& forall|k: int| 0 <= k < plan.len() ==> is_imported_photo(#[trigger] added[k], plan[k], now)
}

/// The warnings of the photo import.
pub open spec fn photo_warnings(bundle: LegacyBundle, state: ApplicationState, items: Seq<MachineItem>) -> Seq<Seq<char>> {
    photo_plan(state.machine_items@ + items, state.photos@, bundle.valve_photos@).1
}

/// Everything the imports add for `bundle` to `state`, and the warnings they raise, in
/// the order the imports run: the category, the machines, the items, the stock, the
/// inspections, the orders, the restock requests, the suppliers and the photos.
pub open spec fn imports_done(
    bundle: LegacyBundle,
    state: ApplicationState,
    a: ImportAdditions,
    warnings: Seq<Seq<char>>,
    now: u64,
) -> bool {
    &&& category_stage(state, a.item_categories@, now)
    &&& machines_stage(bundle, state, a.machines@, now)
    &&& items_stage(bundle, state, a.machines@, a.machine_items@, now)
    &&& stock_stage(bundle, state, a.machine_items@, a.stock_items@, now)
    &&& inspections_stage(bundle, state, a.machine_items@, a.item_categories@, a.inspections@, now)
    &&& orders_stage(bundle, state, a.machines@, a.machine_items@, a.item_categories@, a.service_orders@, now)
    &&& restock_stage(bundle, state, a.restock_requests@, now)
    &&& suppliers_stage(bundle, state, a.suppliers@, now)
    &&& photos_stage(bundle, state, a.machine_items@, a.photos@, now)
    &&& warnings == item_warnings(bundle, state, a.machines@) + stock_warnings(bundle, state)
        + inspection_warnings(bundle, state, a.machine_items@, a.item_categories@) + order_warnings(
        bundle,
        state,
        a.machines@,
        a.machine_items@,
    ) + supplier_warnings(bundle, state) + photo_warnings(bundle, state, a.machine_items@)
}

fn stage_one(bundle: &LegacyBundle, state: &ApplicationState, now: u64) -> (r: (ImportAdditions, Vec<String>))
    ensures
        category_stage(*state, r.0.item_categories@, now),
        machines_stage(*bundle, *state, r.0.machines@, now),
        items_stage(*bundle, *state, r.0.machines@, r.0.machine_items@, now),
        views(r.1@) == item_warnings(*bundle, *state, r.0.machines@),
        r.0.stock_items@.len() == 0,
        r.0.inspections@.len() == 0,
        r.0.service_orders@.len() == 0,
        r.0.restock_requests@.len() == 0,
        r.0.suppliers@.len() == 0,
        r.0.photos@.len() == 0,
{
    let mut added = ImportAdditions::none();
    let mut warnings: Vec<String> = Vec::new();
    proof {
        assert(state.machines@ + Seq::<Machine>::empty() == state.machines@);
        assert(state.machine_items@ + Seq::<MachineItem>::empty() == state.machine_items@);
        assert(state.item_categories@ + Seq::<ItemCategory>::empty() == state.item_categories@);
        assert(views(warnings@) =~= Seq::<Seq<char>>::empty());
    }
    ensure_legacy_category(&state.item_categories, &mut added, now);
    proof {
        reveal(category_stage);
        if !some_has_id(state.item_categories@, LEGACY_CATEGORY_ID@) {
            assert(added.item_categories@[0] == added.item_categories@.last());
        }
    }
    import_machines(bundle, &state.machines, &mut added, now);
    proof {
        reveal(machines_stage);
        let zs = zones_taken(state.machines@, sorted_bundle_zones(bundle.valves@, bundle.orders@));
        assert forall|k: int| 0 <= k < zs.len() implies is_legacy_zone_machine(#[trigger] added.machines@[k], zs[k], now) by {
            assert(added.machines@[0 + k] == added.machines@[k]);
        }
    }
    import_machine_items(bundle, &state.machines, &state.machine_items, &mut added, &mut warnings, now);
    proof {
        reveal(items_stage);
        let plan = item_plan(state.machines@ + added.machines@, state.machine_items@, bundle.valves@).0;
        assert forall|k: int| 0 <= k < plan.len() implies is_imported_item(#[trigger] added.machine_items@[k], plan[k], now) by {
            assert(added.machine_items@[0 + k] == added.machine_items@[k]);
        }
        assert(Seq::<Seq<char>>::empty() + item_warnings(*bundle, *state, added.machines@) == item_warnings(*bundle, *state, added.machines@));
    }
    (added, warnings)
}

/// Runs every import of `bundle` against `state`.
pub fn run_imports(bundle: &LegacyBundle, state: &ApplicationState, now: u64) -> (r: (ImportAdditions, Vec<String>))
    ensures
        imports_done(*bundle, *state, r.0, views(r.1@), now),
{
    let (mut added, mut warnings) = stage_one(bundle, state, now);
    let ghost w1 = views(warnings@);
    proof {
        assert(state.stock_items@ + Seq::<StockItem>::empty() == state.stock_items@);
        assert(state.inspections@ + Seq::<ItemInspection>::empty() == state.inspections@);
        assert(state.service_orders@ + Seq::<ServiceOrder>::empty() == state.service_orders@);
        assert(state.restock_requests@ + Seq::<RestockRequest>::empty() == state.restock_requests@);
        assert(state.suppliers@ + Seq::<Supplier>::empty() == state.suppliers@);
        assert(state.photos@ + Seq::<PhotoAsset>::empty() == state.photos@);
    }
    import_stock(bundle, &state.stock_items, &state.machine_items, &mut added, &mut warnings, now);
    proof {
        reveal(stock_stage);
        let plan = stock_plan(state.stock_items@, bundle.stock@).0;
        let autos = refs_taken(state.stock_items@, plan, sorted_part_numbers(state.machine_items@ + added.machine_items@));
        assert forall|k: int| 0 <= k < plan.len() implies is_imported_stock(#[trigger] added.stock_items@[k], plan[k], now) by {
            assert(added.stock_items@[0 + k] == added.stock_items@[k]);
        }
        assert forall|k: int| 0 <= k < autos.len() implies is_auto_stock(#[trigger] added.stock_items@[plan.len() + k], autos[k], now) by {
            assert(added.stock_items@[0 + plan.len() + k] == added.stock_items@[plan.len() + k]);
        }
    }
    let ghost w2 = views(warnings@);
    import_inspections(
        bundle,
        &state.machine_items,
        &state.item_categories,
        &state.inspections,
        &mut added,
        &mut warnings,
        now,
    );
    proof {
        reveal(inspections_stage);
        let plan = inspection_plan(
            state.machine_items@ + added.machine_items@,
            state.item_categories@ + added.item_categories@,
            state.inspections@,
            bundle.maintenance_records@,
        ).0;
        assert forall|k: int| 0 <= k < plan.len() implies is_imported_inspection(#[trigger] added.inspections@[k], plan[k], now) by {
            assert(added.inspections@[0 + k] == added.inspections@[k]);
        }
    }
    let ghost w3 = views(warnings@);
    import_orders(
        bundle,
        &state.machines,
        &state.machine_items,
        &state.item_categories,
        &state.service_orders,
        &mut added,
        &mut warnings,
        now,
    );
    proof {
        reveal(orders_stage);
        let all_items = state.machine_items@ + added.machine_items@;
        let plan = order_plan(state.machines@ + added.machines@, all_items, state.service_orders@, bundle.orders@).0;
        assert forall|k: int| 0 <= k < plan.len() implies is_imported_order(
            #[trigger] added.service_orders@[k],
            plan[k],
            all_items,
            state.item_categories@ + added.item_categories@,
            now,
        ) by {
            assert(added.service_orders@[0 + k] == added.service_orders@[k]);
        }
    }
    let ghost w4 = views(warnings@);
    import_restock(bundle, &state.restock_requests, &mut added, now);
    proof {
        reveal(restock_stage);
        let plan = restock_plan(state.restock_requests@, bundle.restock_requests@);
        assert forall|k: int| 0 <= k < plan.len() implies is_imported_restock(#[trigger] added.restock_requests@[k], plan[k], now) by {
            assert(added.restock_requests@[0 + k] == added.restock_requests@[k]);
        }
    }
    import_suppliers(bundle, &state.suppliers, &mut added, &mut warnings, now);
    proof {
        reveal(suppliers_stage);
        let plan = supplier_plan(state.suppliers@, bundle.suppliers@).0;
        assert forall|k: int| 0 <= k < plan.len() implies is_imported_supplier(#[trigger] added.suppliers@[k], plan[k], now) by {
            assert(added.suppliers@[0 + k] == added.suppliers@[k]);
        }
    }
    let ghost w5 = views(warnings@);
    import_photos(bundle, &state.machine_items, &state.photos, &mut added, &mut warnings, now);
    proof {
        reveal(photos_stage);
        let plan = photo_plan(state.machine_items@ + added.machine_items@, state.photos@, bundle.valve_photos@).0;
        assert forall|k: int| 0 <= k < plan.len() implies is_imported_photo(#[trigger] added.photos@[k], plan[k], now) by {
            assert(added.photos@[0 + k] == added.photos@[k]);
        }
    }
    (added, warnings)
}

/// The audit event of an import batch that added `total` records, with the counts as
/// `serde_json` encoded them (absent when encoding failed).
pub open spec fn is_batch_event(e: AuditEvent, batch_id: Seq<char>, total: int, encoded: Result<Seq<char>, Seq<char>>, now: u64) -> bool {
    &&& e.id@ == "audit-migration-"@ + hash_text(batch_id)
    &&& e.actor@ == "migration-tool"@
    &&& e.role@ == "system"@
    &&& e.operation@ == "proexel.migration.import"@
    &&& e.aggregate@ == "migration_batch"@
    &&& e.aggregate_id@ == batch_id
    &&& opt_view(e.description) == Some("Imported "@ + decimal_text(total as nat) + " records into schema 2"@)
    &&& opt_view(e.trace_id) == Some(batch_id)
    &&& e.before_json is None
    &&& match encoded {
        Ok(text) => e.after_json matches Some(AuditRecord::Encoded(j)) && j@ == text,
        Err(_) => e.after_json is None,
    }
    &&& e.result@ == "success"@
    &&& e.created_at_ms == now
}

/// The audit event of an import batch, given the counts as `serde_json` encoded them, and
/// the warning raised when that failed.
pub fn batch_event(batch_id: &str, total: u128, encoded: Result<String, String>, now: u64) -> (r: (
    AuditEvent,
    Option<String>,
))
    ensures
        is_batch_event(
            r.0,
            batch_id@,
            total as int,
            match encoded {
                Ok(s) => Ok::<Seq<char>, Seq<char>>(s@),
                Err(e) => Err::<Seq<char>, Seq<char>>(e@),
            },
            now,
        ),
        opt_view(r.1) == match encoded {
            Ok(_) => None,
            Err(e) => Some("migration audit counts encode failed: "@ + e@),
        },
{
    let (after, warning) = match encoded {
        Ok(text) => (Some(AuditRecord::Encoded(text)), None),
        Err(e) => (None, Some(concat2("migration audit counts encode failed: ", e.as_str()))),
    };
    let event = AuditEvent {
        id: concat2("audit-migration-", hash(batch_id).as_str()),
        actor: owned("migration-tool"),
        role: owned("system"),
        operation: owned("proexel.migration.import"),
        aggregate: owned("migration_batch"),
        aggregate_id: owned(batch_id),
        description: Some(concat3("Imported ", wide_decimal_string(total).as_str(), " records into schema 2")),
        trace_id: Some(owned(batch_id)),
        before_json: None,
        after_json: after,
        result: owned("success"),
        created_at_ms: now,
    };
    (event, warning)
}

/// What an import would do: the records it adds, the audit event of the batch (only when
/// it adds some) and its report.
#[derive(Debug, Clone)]
pub struct PreparedMigration {
    pub additions: ImportAdditions,
    pub audit: Option<AuditEvent>,
    pub report: MigrationReport,
}

/// The checksum of an encoded bundle: its FNV-1a hash in 16 hexadecimal digits.
pub open spec fn bundle_checksum(encoded: Seq<u8>) -> Seq<char> {
    "fnv1a64:"@ + hex_digits(fnv1a(encoded) as int, 16)
}

/// `p` is the import of `bundle` into `state` as batch `batch_id`.
pub open spec fn is_prepared(
    p: PreparedMigration,
    bundle: LegacyBundle,
    state: ApplicationState,
    batch_id: Seq<char>,
    encoded: Seq<u8>,
    now: u64,
    dry_run: bool,
) -> bool {
    let counts = additions_counts(p.additions);
    let total = import_total(counts);
    let json = counts_json(import_entries(counts));
    let w = views(p.report.warnings@);
    &&& p.report.source@ == LEGACY_SOURCE_NAME@
    &&& p.report.batch_id@ == batch_id
    &&& p.report.checksum@ == bundle_checksum(encoded)
    &&& p.report.dry_run == dry_run
    &&& p.report.source_counts == (SourceCounts {
        maintenance_records: bundle.maintenance_records@.len() as usize,
        orders: bundle.orders@.len() as usize,
        restock_requests: bundle.restock_requests@.len() as usize,
        stock: bundle.stock@.len() as usize,
        suppliers: bundle.suppliers@.len() as usize,
        valve_photos: bundle.valve_photos@.len() as usize,
        valves: bundle.valves@.len() as usize,
    })
    &&& p.report.imported_counts == counts
    &&& if total > 0 {
        &&& p.audit matches Some(e) && is_batch_event(e, batch_id, total, json, now)
        &&& match json {
            Ok(_) => imports_done(bundle, state, p.additions, w, now),
            Err(msg) => w.len() > 0 && imports_done(bundle, state, p.additions, w.drop_last(), now)
                && w.last() == "migration audit counts encode failed: "@ + msg,
        }
    } else {
        p.audit is None && imports_done(bundle, state, p.additions, w, now)
    }
}

/// A dry run reports what the real run of the same import reports, but for the flag
/// that marks it as a dry run.
pub proof fn lemma_dry_run_reports_the_real_run(
    p: PreparedMigration,
    bundle: LegacyBundle,
    state: ApplicationState,
    batch_id: Seq<char>,
    encoded: Seq<u8>,
    now: u64,
)
    requires
        is_prepared(p, bundle, state, batch_id, encoded, now, true),
    ensures
        is_prepared(
            PreparedMigration { report: MigrationReport { dry_run: false, ..p.report }, ..p },
            bundle,
            state,
            batch_id,
            encoded,
            now,
            false,
        ),
{
}

/// Prepares the import of `bundle` into `state` as batch `batch_id`, given the bundle as
/// serde_json encoded it: refused without a batch identifier or when encoding failed.
pub fn prepare_migration(
    bundle: &LegacyBundle,
    state: &ApplicationState,
    batch_id: &str,
    encoded: Result<Vec<u8>, String>,
    now: u64,
    dry_run: bool,
) -> (r: Result<PreparedMigration, MigrationPreparationError>)
    ensures
        is_blank(batch_id@) ==> r matches Err(MigrationPreparationError::BatchIdRequired),
        !is_blank(batch_id@) ==> match encoded {
            Err(e) => r matches Err(MigrationPreparationError::EncodeBundle(x)) && x@ == e@,
            Ok(bytes) => r matches Ok(p) && is_prepared(p, *bundle, *state, batch_id@, bytes@, now, dry_run),
        },
{
    if blank(batch_id) {
        return Err(MigrationPreparationError::BatchIdRequired);
    }
    let bytes = match encoded {
        Ok(b) => b,
        Err(e) => return Err(MigrationPreparationError::EncodeBundle(e)),
    };
    let checksum = concat2("fnv1a64:", hex16(hash_bytes(bytes.as_slice())).as_str());
    let (additions, mut warnings) = run_imports(bundle, state, now);
    let counts = additions.counts();
    let total = counts.total();
    let mut audit: Option<AuditEvent> = None;
    if total > 0 {
        let entries = counts.entries();
        let json = encode_counts(&entries);
        let (event, warning) = batch_event(batch_id, total, json, now);
        audit = Some(event);
        if let Some(w) = warning {
            let ghost before = views(warnings@);
            warnings.push(w);
            proof {
                assert(views(warnings@).drop_last() == before);
            }
        }
    }
    let report = MigrationReport {
        source: owned(LEGACY_SOURCE_NAME),
        batch_id: owned(batch_id),
        checksum,
        dry_run,
        source_counts: source_counts(bundle),
        imported_counts: counts,
        warnings,
    };
    Ok(PreparedMigration { additions, audit, report })
}

/// `after` is `before` with an import applied: each kind of record gains the added ones,
/// every machine gets its status derived again from its active items and its update time
/// set, the schema is the current one, and the batch event is recorded when there is one.
pub open spec fn is_applied(
    after: ApplicationState,
    before: ApplicationState,
    a: ImportAdditions,
    audit: Option<AuditEvent>,
    now: u64,
) -> bool {
    let machines = before.machines@ + a.machines@;
    let items = before.machine_items@ + a.machine_items@;
    &&& after == (ApplicationState {
        schema_version: after.schema_version,
        item_categories: after.item_categories,
        machines: after.machines,
        machine_items: after.machine_items,
        photos: after.photos,
        service_orders: after.service_orders,
        inspections: after.inspections,
        restock_requests: after.restock_requests,
        stock_items: after.stock_items,
        suppliers: after.suppliers,
        audit_events: after.audit_events,
        ..before
    })
    &&& after.schema_version == SCHEMA_VERSION
    &&& after.item_categories@ == before.item_categories@ + a.item_categories@
    &&& after.machines@.len() == machines.len()
    &&& forall|k: int|
        0 <= k < machines.len() ==> #[trigger] after.machines@[k] == (Machine {
            status: derived_status(machine_statuses(items, machines[k].id@)),
            updated_at_ms: now,
            ..machines[k]
        })
    &&& after.machine_items@ == items
    &&& after.photos@ == before.photos@ + a.photos@
    &&& after.service_orders@ == before.service_orders@ + a.service_orders@
    &&& after.inspections@ == before.inspections@ + a.inspections@
    &&& after.restock_requests@ == before.restock_requests@ + a.restock_requests@
    &&& after.stock_items@ == before.stock_items@ + a.stock_items@
    &&& after.suppliers@ == before.suppliers@ + a.suppliers@
    &&& after.audit_events@ == match audit {
        Some(e) => before.audit_events@.push(e),
        None => before.audit_events@,
    }
}

fn refresh_all_statuses(machines: &mut Vec<Machine>, items: &Vec<MachineItem>, now: u64)
    ensures
        final(machines)@.len() == old(machines)@.len(),
        forall|k: int|
            0 <= k < old(machines)@.len() ==> #[trigger] final(machines)@[k] == (Machine {
                status: derived_status(machine_statuses(items@, old(machines)@[k].id@)),
                updated_at_ms: now,
                ..old(machines)@[k]
            }),
{
    let ghost start = machines@;
    let mut k: usize = 0;
    while k < machines.len()
        invariant
            k <= machines@.len(),
            machines@.len() == start.len(),
            forall|j: int|
                0 <= j < k ==> #[trigger] machines@[j] == (Machine {
                    status: derived_status(machine_statuses(items@, start[j].id@)),
                    updated_at_ms: now,
                    ..start[j]
                }),
            forall|j: int| k <= j < machines@.len() ==> #[trigger] machines@[j] == start[j],
        decreases machines@.len() - k,
    {
        let statuses = statuses_of(items, machines[k].id.as_str());
        let derived = derive_machine_status(statuses.as_slice());
        let mut machine = machines.remove(k);
        machine.status = derived;
        machine.updated_at_ms = now;
        machines.insert(k, machine);
        k += 1;
    }
}

/// Applies prepared additions and the batch event to the state.
pub fn apply_import(state: &mut ApplicationState, additions: ImportAdditions, audit: Option<AuditEvent>, now: u64)
    ensures
        is_applied(*final(state), *old(state), additions, audit, now),
{
    let mut a = additions;
    state.item_categories.append(&mut a.item_categories);
    state.machines.append(&mut a.machines);
    state.machine_items.append(&mut a.machine_items);
    state.photos.append(&mut a.photos);
    state.service_orders.append(&mut a.service_orders);
    state.inspections.append(&mut a.inspections);
    state.restock_requests.append(&mut a.restock_requests);
    state.stock_items.append(&mut a.stock_items);
    state.suppliers.append(&mut a.suppliers);
    refresh_all_statuses(&mut state.machines, &state.machine_items, now);
    state.schema_version = SCHEMA_VERSION;
    if let Some(event) = audit {
        state.audit_events.push(event);
    }
}

/// Imports `bundle` into `state` as batch `batch_id`, given the bundle as serde_json
/// encoded it, and reports what it did. A dry run reports the same and leaves the state
/// as it was.
pub fn migrate_bundle(
    bundle: &LegacyBundle,
    state: &mut ApplicationState,
    batch_id: &str,
    encoded: Result<Vec<u8>, String>,
    now: u64,
    dry_run: bool,
) -> (r: Result<MigrationReport, String>)
    ensures
        is_blank(batch_id@) ==> (r matches Err(e) && e@ == "batch_id_required"@ && *final(state)
            == *old(state)),
        !is_blank(batch_id@) ==> match encoded {
            Err(e) => (r matches Err(x) && x@ == "legacy_bundle_encode_failed: "@ + e@ && *final(state)
                == *old(state)),
            Ok(bytes) => exists|p: PreparedMigration|
                #[trigger] is_prepared(p, *bundle, *old(state), batch_id@, bytes@, now, dry_run) && r == Ok::<
                    MigrationReport,
                    String,
                >(p.report) && if dry_run {
                    *final(state) == *old(state)
                } else {
                    is_applied(*final(state), *old(state), p.additions, p.audit, now)
                },
        },
{
    let ghost bytes = match &encoded {
        Ok(b) => b@,
        Err(_) => Seq::<u8>::empty(),
    };
    let prepared = match prepare_migration(bundle, state, batch_id, encoded, now, dry_run) {
        Ok(p) => p,
        Err(e) => return Err(e.message()),
    };
    let ghost p = prepared;
    let PreparedMigration { additions, audit, report } = prepared;
    if !dry_run {
        apply_import(state, additions, audit, now);
    }
    proof {
        assert(is_prepared(p, *bundle, *old(state), batch_id@, bytes, now, dry_run));
    }
    Ok(report)
}

} // verus!
