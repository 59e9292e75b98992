use proexel::legacy::{
    migrate_v1, persisted_layout, LegacyMaintenance, LegacyOrder, LegacyOrderStatus, LegacyPhoto,
    LegacyStateV1, LegacyValve, PersistedLayout,
};
use proexel::model::{ComplexityLevel, PhotoOwnerType, ServiceOrderPriority, UserAccount};
use proexel::state::SCHEMA_VERSION;

fn canonical_v1_state() -> LegacyStateV1 {
    LegacyStateV1 {
        valves: vec![LegacyValve {
            id: "v1".to_string(),
            tag: "FV 1".to_string(),
            tag_normalized: "FV 1".to_string(),
            zone: "A".to_string(),
            manufacturer: Some("Maker".to_string()),
            serial: Some("S1".to_string()),
            kit_reference: Some("KIT-1".to_string()),
            seat: None,
            dn: Some("50".to_string()),
            valve_type: Some("butterfly".to_string()),
            actuator: None,
            manufactured_at: None,
            last_kit_changed_at: None,
            last_maintenance_at: Some("2026-01-01".to_string()),
            created_at_ms: 1,
            updated_at_ms: 2,
        }],
        maintenance_records: vec![LegacyMaintenance {
            id: "mt1".to_string(),
            valve_id: "v1".to_string(),
            valve_tag_snapshot: "FV 1".to_string(),
            performed_at: "2026-01-01".to_string(),
            technician: "Tech".to_string(),
            maintenance_type: "\"preventive\"".to_string(),
            service: "Inspect".to_string(),
            notes: None,
            signature_ref: None,
            kit_changed: false,
            kit_reference_snapshot: Some("KIT-1".to_string()),
            stock_consumed: false,
            stock_consumption_pending: false,
            created_at_ms: 3,
        }],
        service_orders: vec![LegacyOrder {
            id: "o1".to_string(),
            zone: "A".to_string(),
            valve_id: Some("v1".to_string()),
            valve_tag_snapshot: Some("FV 1".to_string()),
            description: "Inspect".to_string(),
            priority: ServiceOrderPriority::Normal,
            status: LegacyOrderStatus::Pending,
            created_by: "Chief".to_string(),
            technician: None,
            scheduled_for: None,
            created_at_ms: 4,
            updated_at_ms: 4,
        }],
        restock_requests: Vec::new(),
        stock_items: Vec::new(),
        stock_movements: Vec::new(),
        suppliers: Vec::new(),
        valve_photos: vec![LegacyPhoto {
            id: "p1".to_string(),
            valve_id: "v1".to_string(),
            legacy_tag: Some("FV 1".to_string()),
            blob_ref: "p.jpg".to_string(),
        }],
        user_accounts: vec![UserAccount {
            id: "u1".to_string(),
            email: "admin@example.com".to_string(),
            name: "Admin".to_string(),
            role: "admin".to_string(),
            password_hash: "hash".to_string(),
            pin_hash: None,
            active: true,
            maximum_repair_level: ComplexityLevel::intermediate(),
            auth_version: 1,
            created_at_ms: 0,
            updated_at_ms: 0,
        }],
        audit_events: Vec::new(),
    }
}

#[test]
fn canonical_v1_state_is_migrated_without_losing_operational_records() {
    let migrated = persisted_layout(Some(1)) == Ok(PersistedLayout::SchemaV1);
    let state = migrate_v1(canonical_v1_state());

    assert!(migrated);
    assert_eq!(state.schema_version, 2);
    assert_eq!(state.machines.len(), 1);
    assert_eq!(state.machine_items.len(), 1);
    assert_eq!(state.inspections.len(), 1);
    assert_eq!(state.service_orders[0].tasks.len(), 1);
    assert_eq!(state.photos[0].owner_type, PhotoOwnerType::MachineItem);
    assert_eq!(state.user_accounts[0].maximum_repair_level.get(), 5);
}

#[test]
fn current_state_decodes_without_migration() {
    assert_eq!(
        persisted_layout(Some(SCHEMA_VERSION as u64)),
        Ok(PersistedLayout::Current)
    );
}

#[test]
fn state_without_a_version_is_schema_one_and_unknown_versions_are_refused() {
    assert_eq!(persisted_layout(None), Ok(PersistedLayout::SchemaV1));
    assert_eq!(persisted_layout(Some(7)), Ok(PersistedLayout::Current));
    assert_eq!(
        persisted_layout(Some(0)),
        Err("unsupported_schema_version:0".to_string())
    );
}

#[test]
fn migrated_records_keep_their_legacy_details() {
    let state = migrate_v1(canonical_v1_state());
    let item = &state.machine_items[0];
    assert_eq!(item.position, 1);
    assert_eq!(item.code, "FV 1");
    assert_eq!(item.category_id, "migrated-category-valve");
    assert_eq!(state.machines[0].zone, "A");
    assert_eq!(state.machines[0].name, "Migrated assets - A");
    let inspection = &state.inspections[0];
    assert_eq!(inspection.started_at_ms, 20_454 * 86_400_000);
    assert_eq!(
        inspection.notes.as_deref(),
        Some("Previous type: \"preventive\"\nPrevious item: FV 1\nPrevious kit: KIT-1\nPrevious performed at: 2026-01-01")
    );
    assert_eq!(state.service_orders[0].description, "Inspect\nPrevious item: FV 1");
    assert_eq!(
        state.photos[0].description.as_deref(),
        Some("Migrated reference photo for FV 1")
    );
    let event = state.audit_events.last().unwrap();
    assert_eq!(event.id, "audit-schema-v1-v2");
    assert_eq!(state.item_categories[0].custom_field_definitions.len(), 7);
}
