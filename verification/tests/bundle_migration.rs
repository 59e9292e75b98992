use proexel::bundle::{
    LegacyBundle, LegacyMaintenance, LegacyOrder, LegacyPhoto, LegacyRestock, LegacyStock,
    LegacySupplier, LegacyValve,
};
use proexel::bundle_import::migrate_bundle;
use proexel::calendar::date_to_ms;
use proexel::legacy_terms::{default_pending, default_priority};
use proexel::model::PhotoOwnerType;
use proexel::state::{ApplicationState, SCHEMA_VERSION};

fn valve(tag: &str, zone: &str) -> LegacyValve {
    LegacyValve {
        tag: tag.to_string(),
        zone: zone.to_string(),
        manufacturer: None,
        serial: None,
        kit_reference: None,
        seat: None,
        dn: None,
        valve_type: None,
        actuator: None,
        manufactured_at: None,
        last_kit_changed_at: None,
        last_maintenance_at: None,
    }
}

fn order(zone: &str, description: &str, valve_tag: Option<&str>, status: String) -> LegacyOrder {
    LegacyOrder {
        zone: zone.to_string(),
        valve_tag: valve_tag.map(str::to_string),
        description: description.to_string(),
        priority: default_priority(),
        status,
        created_by: None,
        technician: None,
        scheduled_for: None,
    }
}

fn sample_bundle() -> LegacyBundle {
    let mut bundle = LegacyBundle::empty();
    let mut v = valve(" fv 1 ", "A");
    v.kit_reference = Some(" kit-1 ".to_string());
    v.manufacturer = Some("Maker".to_string());
    v.serial = Some("S-1".to_string());
    bundle.valves.push(v);
    bundle.stock.push(LegacyStock {
        reference: "KIT-1".to_string(),
        quantity: 2,
        min_quantity: 1,
        manufacturer: None,
        brand: Some("Maker".to_string()),
        location: Some("A-1".to_string()),
    });
    bundle.maintenance_records.push(LegacyMaintenance {
        tag: "FV 1".to_string(),
        performed_at: "2026-01-01".to_string(),
        technician: "Tech".to_string(),
        maintenance_type: "preventiva".to_string(),
        service: "Inspect".to_string(),
        kit_changed: true,
        notes: None,
        signature_ref: None,
    });
    bundle.orders.push(order("A", "Inspect", Some("FV 1"), "aberta".to_string()));
    bundle.restock_requests.push(LegacyRestock {
        reference: "KIT-1".to_string(),
        reason: "Low".to_string(),
        requested_by: None,
        status: "pendente".to_string(),
    });
    bundle.suppliers.push(LegacySupplier {
        name: "Supplier".to_string(),
        contact: "Person".to_string(),
        email: None,
        website: None,
        notes: None,
        created_by: None,
    });
    bundle.valve_photos.push(LegacyPhoto {
        tag: "FV 1".to_string(),
        blob_ref: "legacy/fv1.jpg".to_string(),
    });
    bundle
}

fn encoded() -> Result<Vec<u8>, String> {
    Ok(b"{\"valves\":[]}".to_vec())
}

#[test]
fn import_is_deterministic_idempotent_and_supports_dry_run() {
    let bundle = sample_bundle();
    let mut state = ApplicationState::default();
    assert!(
        migrate_bundle(&bundle, &mut state, "batch-1", encoded(), 1, true)
            .unwrap()
            .dry_run
    );
    assert!(state.machine_items.is_empty());

    let first = migrate_bundle(&bundle, &mut state, "batch-1", encoded(), 1, false).unwrap();
    assert_eq!(first.imported_counts.get("item_categories"), Some(1));
    assert_eq!(first.imported_counts.get("machine_items"), Some(1));
    assert_eq!(state.item_categories[0].code, "VALVE");
    assert_eq!(state.machines.len(), 1);
    assert_eq!(state.machine_items[0].code_normalized, "FV 1");
    assert_eq!(
        state.machine_items[0]
            .installed_component
            .as_ref()
            .and_then(|component| component.serial_number.as_deref()),
        Some("S-1")
    );
    assert_eq!(state.stock_items[0].manufacturer.as_deref(), Some("Maker"));
    assert_eq!(state.inspections.len(), 1);
    assert_eq!(state.service_orders[0].tasks.len(), 1);
    assert_eq!(state.photos[0].owner_id, state.machine_items[0].id);
    assert_eq!(state.photos[0].owner_type, PhotoOwnerType::MachineItem);

    let second = migrate_bundle(&bundle, &mut state, "batch-1", encoded(), 1, false).unwrap();
    assert_eq!(second.imported_counts.total(), 0);
    assert_eq!(state.audit_events.len(), 1);
    assert_eq!(state.schema_version, SCHEMA_VERSION);
}

#[test]
fn orders_without_specific_item_snapshot_all_items_in_zone() {
    let mut bundle = LegacyBundle::empty();
    bundle.valves.push(valve("A-1", "A"));
    bundle.valves.push(valve("A-2", "A"));
    bundle.orders.push(order("A", "Inspect all", None, default_pending()));
    let mut state = ApplicationState::default();
    migrate_bundle(&bundle, &mut state, "batch-all", encoded(), 1, false).unwrap();
    assert_eq!(state.service_orders[0].tasks.len(), 2);
    assert_eq!(
        state.service_orders[0].tasks[0].item_snapshot.category.code,
        "VALVE"
    );
}

#[test]
fn legacy_dates_fall_back_to_none_when_unreadable() {
    assert_eq!(date_to_ms("2026-13-01"), None);
    assert_eq!(date_to_ms("1969-12-31"), None);
    assert_eq!(date_to_ms("  2026-01-01T10:00:00Z"), Some(20_454 * 86_400_000));
    assert_eq!(date_to_ms("2026-1-1"), None);
}

#[test]
fn blank_batch_identifier_is_refused_before_anything_is_imported() {
    let bundle = sample_bundle();
    let mut state = ApplicationState::default();
    let result = migrate_bundle(&bundle, &mut state, "   ", encoded(), 1, false);
    assert_eq!(result.unwrap_err(), "batch_id_required");
    assert!(state.machines.is_empty());
}

#[test]
fn bundle_that_could_not_be_encoded_is_refused() {
    let bundle = sample_bundle();
    let mut state = ApplicationState::default();
    let result = migrate_bundle(&bundle, &mut state, "batch", Err("boom".to_string()), 1, false);
    assert_eq!(result.unwrap_err(), "legacy_bundle_encode_failed: boom");
    assert!(state.machines.is_empty());
}

#[test]
fn import_records_the_batch_with_its_counts_and_checksum() {
    let bundle = sample_bundle();
    let mut state = ApplicationState::default();
    let report = migrate_bundle(&bundle, &mut state, "batch-1", Ok(b"abc".to_vec()), 7, false).unwrap();
    assert_eq!(report.checksum, "fnv1a64:e71fa2190541574b");
    assert_eq!(report.source, "PROEXEL-main");
    assert_eq!(report.source_counts.valves, 1);
    let event = &state.audit_events[0];
    assert_eq!(event.operation, "proexel.migration.import");
    assert_eq!(event.created_at_ms, 7);
    assert_eq!(
        event.description.as_deref(),
        Some("Imported 9 records into schema 2")
    );
    match &event.after_json {
        Some(proexel::model::AuditRecord::Encoded(text)) => assert_eq!(
            text,
            "{\"inspections\":1,\"item_categories\":1,\"machine_items\":1,\"machines\":1,\"photos\":1,\"restock_requests\":1,\"service_orders\":1,\"stock_items\":1,\"suppliers\":1}"
        ),
        _ => panic!("the batch event keeps its counts"),
    }
    assert_eq!(
        report.warnings,
        vec!["stock KIT-1: brand mapped to manufacturer; location preserved".to_string()]
    );
}

#[test]
fn skipped_records_raise_warnings_in_order() {
    let mut bundle = LegacyBundle::empty();
    bundle.valves.push(valve("  ", "A"));
    bundle.valves.push(valve("V-1", "B"));
    bundle.maintenance_records.push(LegacyMaintenance {
        tag: "missing".to_string(),
        performed_at: "2026-01-01".to_string(),
        technician: "Tech".to_string(),
        maintenance_type: "x".to_string(),
        service: "y".to_string(),
        kit_changed: false,
        notes: None,
        signature_ref: None,
    });
    bundle.valve_photos.push(LegacyPhoto { tag: "nope".to_string(), blob_ref: "p.jpg".to_string() });
    let mut state = ApplicationState::default();
    let report = migrate_bundle(&bundle, &mut state, "b", encoded(), 1, false).unwrap();
    assert_eq!(
        report.warnings,
        vec![
            "asset skipped: empty TAG or zone (  )".to_string(),
            "maintenance 0 skipped: item MISSING not found".to_string(),
            "photo skipped: item NOPE not found".to_string(),
        ]
    );
    assert_eq!(state.machines.len(), 2);
    assert_eq!(state.machine_items.len(), 1);
}

#[test]
fn dry_run_reports_what_the_real_run_does() {
    let bundle = sample_bundle();
    let mut state = ApplicationState::default();
    let dry = migrate_bundle(&bundle, &mut state, "batch-2", encoded(), 5, true).unwrap();
    let real = migrate_bundle(&bundle, &mut state, "batch-2", encoded(), 5, false).unwrap();
    assert!(dry.dry_run);
    assert!(!real.dry_run);
    assert_eq!(dry.imported_counts, real.imported_counts);
    assert_eq!(dry.source_counts, real.source_counts);
    assert_eq!(dry.warnings, real.warnings);
    assert_eq!(dry.checksum, real.checksum);
}

#[test]
fn second_import_under_another_batch_adds_nothing() {
    let bundle = sample_bundle();
    let mut state = ApplicationState::default();
    migrate_bundle(&bundle, &mut state, "batch-a", encoded(), 1, false).unwrap();
    let machines = state.machines.len();
    let items = state.machine_items.len();
    let again = migrate_bundle(&bundle, &mut state, "batch-b", encoded(), 9, false).unwrap();
    assert_eq!(again.imported_counts.total(), 0);
    assert_eq!(state.machines.len(), machines);
    assert_eq!(state.machine_items.len(), items);
    assert_eq!(state.audit_events.len(), 1);
}

#[test]
fn the_same_import_reports_the_same() {
    let bundle = sample_bundle();
    let mut one = ApplicationState::default();
    let mut two = ApplicationState::default();
    let first = migrate_bundle(&bundle, &mut one, "batch-9", encoded(), 3, false).unwrap();
    let second = migrate_bundle(&bundle, &mut two, "batch-9", encoded(), 3, true).unwrap();
    assert_eq!(first.imported_counts, second.imported_counts);
    assert_eq!(first.warnings, second.warnings);
    assert_eq!(first.checksum, second.checksum);
    assert_eq!(first.source_counts, second.source_counts);
    assert_eq!(first.batch_id, second.batch_id);
}
