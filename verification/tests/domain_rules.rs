use proexel::calendar::date_to_ms;
use proexel::model::{ComplexityLevel, MaintenanceHealth, OperationalStatus, ServiceOrderStatus};
use proexel::permissions::{can, queries, query_permission, Role, GET_REPORTS, LIST_MACHINES};
use proexel::policy::{
    adjust_stock, can_execute_complexity, can_transition_order, derive_machine_status,
    maintenance_health, normalize_reference, normalize_tag,
};

#[test]
fn normalizes_tags_and_references_once() {
    assert_eq!(normalize_tag("  fv   10.2 "), "FV 10.2");
    assert_eq!(normalize_reference(" kit  ab-2 "), "KIT AB-2");
}

#[test]
fn completed_order_cannot_be_reopened() {
    assert!(!can_transition_order(
        ServiceOrderStatus::Completed,
        ServiceOrderStatus::InProgress
    ));
    assert!(can_transition_order(
        ServiceOrderStatus::Pending,
        ServiceOrderStatus::Completed
    ));
}

#[test]
fn complexity_and_machine_status_are_domain_rules() {
    assert!(can_execute_complexity(
        ComplexityLevel::new(4).unwrap(),
        ComplexityLevel::new(3).unwrap()
    ));
    assert!(!can_execute_complexity(
        ComplexityLevel::new(2).unwrap(),
        ComplexityLevel::new(3).unwrap()
    ));
    assert_eq!(
        proexel::policy::derive_machine_status(&[OperationalStatus::Okay, OperationalStatus::Critical]),
        OperationalStatus::Critical
    );
}

#[test]
fn stock_never_becomes_negative() {
    assert_eq!(adjust_stock(3, -2), Ok(1));
    assert_eq!(adjust_stock(0, -1), Err("stock_cannot_be_negative"));
}

#[test]
fn missing_maintenance_is_critical() {
    assert_eq!(maintenance_health(None), MaintenanceHealth::Critical);
}

#[test]
fn more_than_180_days_is_critical() {
    assert_eq!(maintenance_health(Some(181)), MaintenanceHealth::Critical);
}

#[test]
fn more_than_150_days_is_warning_until_180() {
    assert_eq!(maintenance_health(Some(151)), MaintenanceHealth::Warning);
    assert_eq!(maintenance_health(Some(180)), MaintenanceHealth::Warning);
}

#[test]
fn up_to_150_days_is_ok() {
    assert_eq!(maintenance_health(Some(150)), MaintenanceHealth::Okay);
    assert_eq!(maintenance_health(Some(0)), MaintenanceHealth::Okay);
}

#[test]
fn technician_can_execute_inspection_but_cannot_adjust_stock() {
    assert!(can(Role::Tecnico, "inspection.execute"));
    assert!(!can(Role::Tecnico, "stock.adjust_quantity"));
}

#[test]
fn compras_can_manage_stock_but_not_approve_restock_in_legacy_ui() {
    assert!(can(Role::Compras, "stock.adjust_quantity"));
    assert!(!can(Role::Compras, "restock.approve_reject"));
}

#[test]
fn supplier_management_is_admin_only_until_redecided() {
    assert!(can(Role::Admin, "supplier.create_update_delete"));
    assert!(!can(Role::Chefe, "supplier.create_update_delete"));
}

#[test]
fn query_permissions_cover_every_registered_query() {
    for query in queries() {
        assert_ne!(
            query_permission(query),
            Some("unknown"),
            "missing RBAC mapping for {query}"
        );
    }
    assert!(can(Role::Tecnico, query_permission(LIST_MACHINES).unwrap()));
    assert!(!can(Role::Compras, query_permission(LIST_MACHINES).unwrap()));
    assert!(can(Role::Chefe, query_permission(GET_REPORTS).unwrap()));
}

#[test]
fn legacy_dates_are_preserved_as_inspection_timestamps() {
    assert_eq!(date_to_ms("1970-01-01"), Some(0));
    assert_eq!(date_to_ms("2026-08-13"), Some(20_678 * 86_400_000));
}

#[test]
fn complexity_level_round_trips_through_its_number() {
    for n in 1..=5u8 {
        let level = proexel::model::ComplexityLevel::new(n).unwrap();
        assert_eq!(proexel::model::ComplexityLevel::new(level.get()).unwrap().get(), n);
    }
    assert!(proexel::model::ComplexityLevel::new(0).is_err());
    assert!(proexel::model::ComplexityLevel::new(6).is_err());
    assert_eq!(proexel::model::ComplexityLevel::default().get(), 3);
}

#[test]
fn derived_status_ignores_order_and_unknown_items() {
    let a = [OperationalStatus::Okay, OperationalStatus::Attention, OperationalStatus::Disabled];
    let b = [OperationalStatus::Disabled, OperationalStatus::Okay, OperationalStatus::Attention];
    assert_eq!(proexel::policy::derive_machine_status(&a), proexel::policy::derive_machine_status(&b));
    assert_eq!(proexel::policy::derive_machine_status(&a), OperationalStatus::Attention);
    let with_unknown = [OperationalStatus::Okay, OperationalStatus::Attention, OperationalStatus::Disabled, OperationalStatus::Unknown];
    assert_eq!(proexel::policy::derive_machine_status(&with_unknown), proexel::policy::derive_machine_status(&a));
    let c = [OperationalStatus::Critical];
    let joined = [OperationalStatus::Okay, OperationalStatus::Attention, OperationalStatus::Disabled, OperationalStatus::Critical];
    let pair = [proexel::policy::derive_machine_status(&a), proexel::policy::derive_machine_status(&c)];
    assert_eq!(proexel::policy::derive_machine_status(&joined), proexel::policy::derive_machine_status(&pair));
    assert_eq!(proexel::policy::derive_machine_status(&[]), OperationalStatus::Unknown);
}
