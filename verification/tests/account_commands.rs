use proexel::commands::{CommandData, CreateUser, SupplierInput, UpdateUser};
use proexel::model::{AuditRecord, ComplexityLevel};
use proexel::permissions::{Role, CREATE_SUPPLIER, CREATE_USER, UPDATE_USER};
use proexel::state::{Actor, ApplicationState, CommandPayload};

fn command(actor_role: Role, data: CommandData) -> Option<CommandPayload> {
    Some(CommandPayload {
        actor: Actor {
            id: "u1".to_string(),
            name: "Test".to_string(),
            role: actor_role,
        },
        data,
    })
}

fn create_admin(email: &str) -> CommandData {
    CommandData::CreateUser(CreateUser {
        email: email.to_string(),
        name: "Main Admin".to_string(),
        role: Role::Admin,
        password_hash: format!("scrypt$salt${}", "ab".repeat(32)),
        pin_hash: None,
        maximum_repair_level: ComplexityLevel::new(5).unwrap(),
    })
}

#[test]
fn supplier_rejects_invalid_links() {
    let mut state = ApplicationState::default();
    let invalid = CommandData::Supplier(SupplierInput {
        name: "Supplier".to_string(),
        contact: "Person".to_string(),
        email: None,
        website: Some("example.com".to_string()),
        notes: None,
    });
    assert_eq!(
        state
            .execute(CREATE_SUPPLIER, "c1", "idem-1", 1, command(Role::Admin, invalid))
            .unwrap_err(),
        "supplier_website_invalid"
    );
}

#[test]
fn user_management_redacts_credentials_and_persists_repair_level() {
    let mut state = ApplicationState::default();
    state
        .execute(
            CREATE_USER,
            "u1",
            "user-idem-1",
            1,
            command(Role::Admin, create_admin("ADMIN@EXAMPLE.COM")),
        )
        .unwrap();
    assert_eq!(state.user_accounts[0].maximum_repair_level.get(), 5);
    assert_eq!(state.user_accounts[0].email, "admin@example.com");
    let snapshot = state.audit_events.last().unwrap().after_json.as_ref().unwrap();
    match snapshot {
        AuditRecord::User(view) => {
            let shown = format!("{view:?}");
            assert!(!shown.contains("password_hash"));
            assert!(!shown.contains("scrypt$"));
            assert!(!view.has_pin);
        }
        other => panic!("unexpected audit value {other:?}"),
    }
}

#[test]
fn last_active_administrator_cannot_be_disabled() {
    let mut state = ApplicationState::default();
    state
        .execute(
            CREATE_USER,
            "u1",
            "user-idem-1",
            1,
            command(Role::Admin, create_admin("admin@example.com")),
        )
        .unwrap();
    let disable = CommandData::UpdateUser(UpdateUser {
        id: "user-u1".to_string(),
        email: "admin@example.com".to_string(),
        name: "Main Admin".to_string(),
        role: Role::Admin,
        active: false,
        maximum_repair_level: ComplexityLevel::new(5).unwrap(),
    });
    assert_eq!(
        state
            .execute(UPDATE_USER, "u2", "user-idem-2", 2, command(Role::Admin, disable))
            .unwrap_err(),
        "last_active_admin_required"
    );
    assert!(state.user_accounts[0].active);
}
