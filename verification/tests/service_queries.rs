use proexel::model::{
    ComplexityLevel, Machine, MachineItem, OperationalStatus, ReplacementSpecification,
    ServiceOrderPriority, UserAccount,
};
use proexel::permissions::{can, queries, query_permission, Role, GET_REPORTS, LIST_MACHINES};
use proexel::query_assets::{machines_query, MachineFilter};
use proexel::query_summary::{
    may_run_query, query_kind, reports, resolve_identity, user_listing, QueryKind,
};
use proexel::query_support::{contains_text, order_status_counts, page_filter};
use proexel::state::ApplicationState;

fn machine(id: &str, zone: &str, status: OperationalStatus) -> Machine {
    Machine {
        id: id.to_string(),
        code: id.to_uppercase(),
        code_normalized: id.to_uppercase(),
        name: format!("Machine {id}"),
        description: None,
        zone: zone.to_string(),
        location: None,
        manufacturer: None,
        model: None,
        serial_number: None,
        status,
        main_photo_id: None,
        active: true,
        created_at_ms: 0,
        updated_at_ms: 0,
    }
}

fn item(index: usize, machine_id: &str, status: OperationalStatus) -> MachineItem {
    MachineItem {
        id: format!("item-{index}"),
        machine_id: machine_id.to_string(),
        category_id: "category-1".to_string(),
        name: format!("Item {index}"),
        code: format!("I-{index:05}"),
        code_normalized: format!("I-{index:05}"),
        complexity_level: ComplexityLevel::intermediate(),
        status,
        position: index as u32,
        location_description: None,
        custom_field_values: Vec::new(),
        maintenance_guide_override: None,
        installed_component: None,
        replacement_specification: ReplacementSpecification::default(),
        notes: None,
        active: true,
        removed_at_ms: None,
        created_at_ms: index as u64,
        updated_at_ms: index as u64,
    }
}

fn all_machines(page: usize, page_size: usize) -> MachineFilter {
    MachineFilter {
        id: String::new(),
        search: String::new(),
        zone: String::new(),
        status: String::new(),
        page,
        page_size,
        include_removed: false,
    }
}

#[test]
fn reports_group_machine_items_by_zone_and_status() {
    let mut state = ApplicationState::default();
    state
        .machines
        .push(machine("machine-1", "Line 1", OperationalStatus::Critical));
    state
        .machine_items
        .push(item(1, "machine-1", OperationalStatus::Critical));

    let report = reports(&state);

    assert_eq!(report.overview.machine_statuses.get("critical"), Some(1));
    assert_eq!(report.zones[0].zone, "Line 1");
    assert_eq!(report.zones[0].critical_items, 1);
    assert_eq!(
        state.machine_items[report.critical_items[0].item].code,
        "I-00001"
    );
}

#[test]
fn query_permissions_cover_every_registered_query_in_the_gate() {
    for query in queries() {
        assert_ne!(query_kind(query), QueryKind::Unknown);
        assert_ne!(query_permission(query), Some("unknown"));
    }
    assert!(may_run_query(LIST_MACHINES, Some(Role::Tecnico)));
    assert!(!may_run_query(LIST_MACHINES, Some(Role::Compras)));
    assert!(may_run_query(GET_REPORTS, Some(Role::Chefe)));
    assert!(!may_run_query(GET_REPORTS, None));
    assert!(may_run_query("proexel.identity.resolve", None));
    assert!(!may_run_query("nothing", Some(Role::Admin)));
    assert!(can(Role::Tecnico, query_permission(LIST_MACHINES).unwrap()));
}

#[test]
fn administrative_user_list_never_exposes_credential_hashes() {
    let mut state = ApplicationState::default();
    state.user_accounts.push(UserAccount {
        id: "u1".to_string(),
        email: "admin@example.com".to_string(),
        name: "Admin".to_string(),
        role: "admin".to_string(),
        password_hash: "scrypt$salt$secret".to_string(),
        pin_hash: Some("scrypt$pin$secret".to_string()),
        active: true,
        maximum_repair_level: ComplexityLevel::expert(),
        auth_version: 3,
        created_at_ms: 1,
        updated_at_ms: 2,
    });

    let listing = user_listing(&state);
    let shown = format!("{:?}", listing);
    assert!(!shown.contains("password_hash"));
    assert!(!shown.contains("pin_hash"));
    assert!(!shown.contains("scrypt$"));
    assert!(listing[0].has_pin);
    assert_eq!(listing[0].maximum_repair_level, 5);
}

#[test]
fn production_volume_machine_query_is_paginated_and_bounded() {
    let started = std::time::Instant::now();
    let mut state = ApplicationState::default();
    for index in 0..2_000 {
        let machine_id = format!("machine-{index}");
        state.machines.push(machine(
            &machine_id,
            &format!("Zone {}", index % 20),
            OperationalStatus::Okay,
        ));
        state
            .machine_items
            .push(item(index, &machine_id, OperationalStatus::Okay));
    }
    let page = machines_query(&state, &all_machines(page_filter(Some(20), 1, usize::MAX), page_filter(Some(50), 25, 500)));
    assert_eq!(page.total, 2_000);
    assert_eq!(page.rows.len(), 50);
    assert!(started.elapsed() < std::time::Duration::from_secs(5));
}

#[test]
fn order_status_count_includes_cancelled_and_empty_buckets() {
    let state = ApplicationState::default();
    let counts = order_status_counts(&state.service_orders);
    assert_eq!(counts.get("pending"), Some(0));
    assert_eq!(counts.get("cancelled"), Some(0));
    let _ = ServiceOrderPriority::Normal;
    let _ = proexel::model::InspectionStatus::Completed;
}

#[test]
fn machine_list_sorts_by_zone_then_code_and_pages() {
    let mut state = ApplicationState::default();
    state.machines.push(machine("b", "Zone 2", OperationalStatus::Okay));
    state.machines.push(machine("c", "Zone 1", OperationalStatus::Okay));
    state.machines.push(machine("a", "Zone 2", OperationalStatus::Critical));
    let page = machines_query(&state, &all_machines(1, 2));
    assert_eq!(page.total, 3);
    let shown: Vec<usize> = page.rows.iter().map(|row| row.machine).collect();
    assert_eq!(shown, vec![1, 2]);
    assert_eq!(page.zones, vec!["Zone 1".to_string(), "Zone 2".to_string()]);
    let second = machines_query(&state, &all_machines(2, 2));
    assert_eq!(second.rows.len(), 1);
    assert_eq!(second.rows[0].machine, 0);
    let mut critical = all_machines(1, 25);
    critical.status = "critical".to_string();
    assert_eq!(machines_query(&state, &critical).total, 1);
    assert_eq!(page_filter(Some(0), 1, 10), 1);
    assert_eq!(page_filter(Some(900), 25, 500), 500);
    assert_eq!(page_filter(None, 25, 500), 25);
}

#[test]
fn identity_is_found_by_normalized_address_or_identifier() {
    let mut state = ApplicationState::default();
    state.user_accounts.push(UserAccount {
        id: "u1".to_string(),
        email: "ana@example.com".to_string(),
        name: "Ana".to_string(),
        role: "tecnico".to_string(),
        password_hash: "h".to_string(),
        pin_hash: None,
        active: true,
        maximum_repair_level: ComplexityLevel::intermediate(),
        auth_version: 1,
        created_at_ms: 0,
        updated_at_ms: 0,
    });
    assert_eq!(resolve_identity(&state, Some("  ANA@example.com "), None), Some(0));
    assert_eq!(resolve_identity(&state, None, Some(" u1 ")), Some(0));
    assert_eq!(resolve_identity(&state, Some("other@example.com"), None), None);
    assert!(contains_text("MACHINE 1", "HINE"));
    assert!(!contains_text("MACHINE", "MACHINES"));
}
