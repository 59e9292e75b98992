use proexel::commands::{
    AddPhoto, CategoryInput, CommandData, CompleteInspection, CreateServiceOrder, DeletePhoto,
    InstalledComponentInput, MachineInput, MachineItemInput, OrderOperator, ReplaceMachineItem,
    StartInspection,
};
use proexel::model::{
    ComplexityLevel, CustomFieldDefinition, CustomFieldType, FieldValue, GuideStepType,
    InspectionStepResult, MaintenanceGuide, MaintenanceGuideStep, NumberBits, OperationalStatus,
    PhotoOwnerType, PhotoPurpose, ServiceOrderPriority, UserAccount,
};
use proexel::permissions::{
    Role, ADD_MACHINE_ITEM, ADD_PHOTO, COMPLETE_INSPECTION, CREATE_ITEM_CATEGORY, CREATE_MACHINE,
    CREATE_SERVICE_ORDER, DELETE_PHOTO, REPLACE_MACHINE_ITEM, START_INSPECTION,
    START_SERVICE_ORDER,
};
use proexel::state::{Actor, ApplicationState, CommandPayload};

fn command(actor_id: &str, role: Role, data: CommandData) -> Option<CommandPayload> {
    Some(CommandPayload {
        actor: Actor {
            id: actor_id.to_string(),
            name: "Test actor".to_string(),
            role,
        },
        data,
    })
}

fn number(value: f64) -> NumberBits {
    NumberBits {
        bits: value.to_bits(),
    }
}

fn user(id: &str, email: &str, name: &str, role: &str, level: u8) -> UserAccount {
    UserAccount {
        id: id.to_string(),
        email: email.to_string(),
        name: name.to_string(),
        role: role.to_string(),
        password_hash: "scrypt$salt$aaaaaaaaaaaaaaaaaaaaaaaaaaaaaaaa".to_string(),
        pin_hash: None,
        active: true,
        maximum_repair_level: ComplexityLevel::new(level).unwrap(),
        auth_version: 1,
        created_at_ms: 0,
        updated_at_ms: 0,
    }
}

fn setup() -> ApplicationState {
    let mut state = ApplicationState::default();
    state
        .user_accounts
        .push(user("admin", "admin@example.com", "Admin", "admin", 5));
    state
        .user_accounts
        .push(user("tech-2", "tech@example.com", "Tech 2", "tecnico", 2));
    let category = CategoryInput {
        code: "motor".to_string(),
        name: "Motor elétrico".to_string(),
        description: None,
        icon: None,
        default_complexity_level: ComplexityLevel::new(4).unwrap(),
        maintenance_guide: MaintenanceGuide {
            version: 1,
            steps: vec![MaintenanceGuideStep {
                id: "confirm".to_string(),
                title: "Confirm".to_string(),
                description: None,
                instructions: "Confirm identity".to_string(),
                step_type: GuideStepType::Confirmation,
                required: true,
                reference_photo_ids: vec![],
                safety_warning: None,
                expected_value: None,
                options: vec![],
                order: 1,
            }],
        },
        custom_field_definitions: vec![CustomFieldDefinition {
            id: "power".to_string(),
            key: "power".to_string(),
            label: "Power".to_string(),
            field_type: CustomFieldType::Number,
            required: true,
            unit: Some("kW".to_string()),
            options: vec![],
            minimum: Some(number(0.0)),
            maximum: Some(number(100.0)),
            order: 1,
        }],
        recommended_parts: vec![],
        active: true,
    };
    state
        .execute(
            CREATE_ITEM_CATEGORY,
            "cat",
            "i-cat",
            1,
            command("admin", Role::Admin, CommandData::Category(category)),
        )
        .unwrap();
    let machine = MachineInput {
        code: "M17".to_string(),
        name: "Press".to_string(),
        description: None,
        zone: "Production".to_string(),
        location: None,
        manufacturer: None,
        model: None,
        serial_number: None,
        active: true,
    };
    state
        .execute(
            CREATE_MACHINE,
            "m",
            "i-m",
            2,
            command("admin", Role::Admin, CommandData::Machine(machine)),
        )
        .unwrap();
    state
}

fn add_item(state: &mut ApplicationState, id: &str, complexity: Option<u8>) {
    let data = MachineItemInput {
        machine_id: "machine-m".to_string(),
        category_id: "category-cat".to_string(),
        name: format!("Motor {id}"),
        code: id.to_string(),
        complexity_level: complexity.map(|level| ComplexityLevel::new(level).unwrap()),
        status: None,
        location_description: None,
        custom_field_values: vec![(
            "power".to_string(),
            FieldValue::Number {
                value: number(4.2),
                literal: "4.2".to_string(),
            },
        )],
        installed_component: None,
        replacement_specification: None,
        notes: None,
    };
    state
        .execute(
            ADD_MACHINE_ITEM,
            id,
            &format!("i-{id}"),
            3,
            command("admin", Role::Admin, CommandData::MachineItem(data)),
        )
        .unwrap();
}

fn order_of_all(operator: Option<&str>) -> CommandData {
    CommandData::CreateServiceOrder(CreateServiceOrder {
        machine_id: "machine-m".to_string(),
        item_ids: vec![],
        all_items: true,
        description: "Inspect".to_string(),
        priority: ServiceOrderPriority::Normal,
        scheduled_for: None,
        assigned_operator_id: operator.map(str::to_string),
    })
}

#[test]
fn asset_command_tests_category_machine_and_items_apply_default_and_override_complexity() {
    let mut state = setup();
    add_item(&mut state, "a", None);
    add_item(&mut state, "b", Some(3));
    assert_eq!(state.machine_items[0].complexity_level.get(), 4);
    assert_eq!(state.machine_items[1].complexity_level.get(), 3);
}

#[test]
fn asset_command_tests_order_all_selection_is_snapshotted_and_does_not_expand() {
    let mut state = setup();
    add_item(&mut state, "a", Some(2));
    state
        .execute(
            CREATE_SERVICE_ORDER,
            "o",
            "i-o",
            4,
            command("admin", Role::Admin, order_of_all(None)),
        )
        .unwrap();
    add_item(&mut state, "b", Some(2));
    assert_eq!(state.service_orders[0].tasks.len(), 1);
}

#[test]
fn asset_command_tests_guide_photo_is_linked_snapshotted_and_protected_from_deletion() {
    let mut state = setup();
    add_item(&mut state, "a", Some(2));
    let add_photo = CommandData::AddPhoto(AddPhoto {
        owner_type: PhotoOwnerType::GuideStep,
        owner_id: "confirm".to_string(),
        purpose: PhotoPurpose::Reference,
        blob_ref: "guide-photos/reference.webp".to_string(),
        description: None,
    });
    state
        .execute(
            ADD_PHOTO,
            "guide",
            "i-guide",
            4,
            command("admin", Role::Admin, add_photo),
        )
        .unwrap();
    assert_eq!(
        state.item_categories[0].maintenance_guide.steps[0].reference_photo_ids,
        vec!["photo-guide"]
    );
    let mismatched_remove = CommandData::DeletePhoto(DeletePhoto {
        id: "photo-guide".to_string(),
        blob_ref: "guide-photos/other.webp".to_string(),
    });
    assert_eq!(
        state
            .execute(
                DELETE_PHOTO,
                "delete-mismatch",
                "i-delete-mismatch",
                5,
                command("admin", Role::Admin, mismatched_remove),
            )
            .unwrap_err(),
        "photo_ref_mismatch"
    );
    state
        .execute(
            CREATE_SERVICE_ORDER,
            "o-photo",
            "i-o-photo",
            6,
            command("admin", Role::Admin, order_of_all(None)),
        )
        .unwrap();
    assert_eq!(
        state.service_orders[0].tasks[0]
            .item_snapshot
            .category
            .guide_reference_photos[0]
            .blob_ref,
        "guide-photos/reference.webp"
    );
    let remove = CommandData::DeletePhoto(DeletePhoto {
        id: "photo-guide".to_string(),
        blob_ref: "guide-photos/reference.webp".to_string(),
    });
    assert_eq!(
        state
            .execute(
                DELETE_PHOTO,
                "delete-guide",
                "i-delete-guide",
                7,
                command("admin", Role::Admin, remove),
            )
            .unwrap_err(),
        "photo_in_use_by_service_order"
    );
}

#[test]
fn asset_command_tests_level_two_operator_cannot_start_level_three_task() {
    let mut state = setup();
    add_item(&mut state, "a", Some(3));
    state
        .execute(
            CREATE_SERVICE_ORDER,
            "o",
            "i-o",
            4,
            command("admin", Role::Admin, order_of_all(None)),
        )
        .unwrap();
    let start = CommandData::OrderOperator(OrderOperator {
        id: "order-o".to_string(),
        operator_id: None,
    });
    assert_eq!(
        state
            .execute(
                START_SERVICE_ORDER,
                "s",
                "i-s",
                5,
                command("tech-2", Role::Tecnico, start),
            )
            .unwrap_err(),
        "operator_repair_level_insufficient"
    );
}

#[test]
fn asset_command_tests_guided_execution_requires_results_and_updates_derived_status() {
    let mut state = setup();
    add_item(&mut state, "a", Some(2));
    state
        .execute(
            CREATE_SERVICE_ORDER,
            "o",
            "i-o",
            4,
            command("admin", Role::Admin, order_of_all(Some("tech-2"))),
        )
        .unwrap();
    let start_order = CommandData::OrderOperator(OrderOperator {
        id: "order-o".to_string(),
        operator_id: None,
    });
    state
        .execute(
            START_SERVICE_ORDER,
            "so",
            "i-so",
            5,
            command("tech-2", Role::Tecnico, start_order),
        )
        .unwrap();
    let start = CommandData::StartInspection(StartInspection {
        order_id: "order-o".to_string(),
        task_id: "task-o-0".to_string(),
        operator_id: None,
    });
    state
        .execute(
            START_INSPECTION,
            "in",
            "i-in",
            6,
            command("tech-2", Role::Tecnico, start),
        )
        .unwrap();
    let complete = |results: Vec<InspectionStepResult>| {
        CommandData::CompleteInspection(CompleteInspection {
            id: "inspection-in".to_string(),
            status_after: OperationalStatus::Okay,
            step_results: results,
            findings: vec![],
            photo_ids: vec![],
            notes: None,
            maintenance_action: None,
        })
    };
    assert!(state
        .execute(
            COMPLETE_INSPECTION,
            "ci",
            "i-ci",
            7,
            command("tech-2", Role::Tecnico, complete(vec![])),
        )
        .unwrap_err()
        .starts_with("inspection_step_required"));
    let answers = vec![InspectionStepResult {
        step_id: "confirm".to_string(),
        value: FieldValue::Bool(true),
        unit: None,
        photo_ids: vec![],
    }];
    state
        .execute(
            COMPLETE_INSPECTION,
            "ci2",
            "i-ci2",
            8,
            command("tech-2", Role::Tecnico, complete(answers)),
        )
        .unwrap();
    assert_eq!(state.machine_items[0].status, OperationalStatus::Okay);
    assert_eq!(state.machines[0].status, OperationalStatus::Okay);
}

#[test]
fn asset_command_tests_replacement_preserves_previous_physical_identity() {
    let mut state = setup();
    add_item(&mut state, "a", Some(2));
    let replace = CommandData::ReplaceMachineItem(ReplaceMachineItem {
        id: "machine-item-a".to_string(),
        reason: "Failure".to_string(),
        installed_component: InstalledComponentInput {
            manufacturer: Some("WEG".to_string()),
            model: None,
            part_number: None,
            serial_number: Some("NEW".to_string()),
            installed_at: None,
            technical_specifications: vec![],
        },
    });
    state
        .execute(
            REPLACE_MACHINE_ITEM,
            "r",
            "i-r",
            9,
            command("admin", Role::Admin, replace),
        )
        .unwrap();
    assert_eq!(state.machine_item_replacements.len(), 1);
    assert_eq!(
        state.machine_items[0]
            .installed_component
            .as_ref()
            .and_then(|component| component.serial_number.as_deref()),
        Some("NEW")
    );
}
