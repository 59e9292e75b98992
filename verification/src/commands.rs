//! The data each command carries, decoded from its payload.
use vstd::prelude::*;

use crate::model::{
    ComplexityLevel, CustomFieldDefinition, FieldValue, InspectionFinding, InspectionStepResult,
    MaintenanceGuide, OperationalStatus, PhotoOwnerType, PhotoPurpose, RecommendedPart,
    ReplacementSpecification, RestockStatus, ServiceOrderPriority,
};
use crate::permissions::Role;

verus! {

/// A category's editable fields.
#[derive(Debug, Clone)]
pub struct CategoryInput {
    pub code: String,
    pub name: String,
    pub description: Option<String>,
    pub icon: Option<String>,
    pub default_complexity_level: ComplexityLevel,
    pub maintenance_guide: MaintenanceGuide,
    pub custom_field_definitions: Vec<CustomFieldDefinition>,
    pub recommended_parts: Vec<RecommendedPart>,
    pub active: bool,
}

/// New fields for an existing category.
#[derive(Debug, Clone)]
pub struct UpdateCategory {
    pub id: String,
    pub category: CategoryInput,
}

/// A machine's editable fields.
#[derive(Debug, Clone)]
pub struct MachineInput {
    pub code: String,
    pub name: String,
    pub description: Option<String>,
    pub zone: String,
    pub location: Option<String>,
    pub manufacturer: Option<String>,
    pub model: Option<String>,
    pub serial_number: Option<String>,
    pub active: bool,
}

/// New fields for an existing machine.
#[derive(Debug, Clone)]
pub struct UpdateMachine {
    pub id: String,
    pub machine: MachineInput,
}

/// A physical unit as entered by a user.
#[derive(Debug, Clone)]
pub struct InstalledComponentInput {
    pub manufacturer: Option<String>,
    pub model: Option<String>,
    pub part_number: Option<String>,
    pub serial_number: Option<String>,
    pub installed_at: Option<String>,
    pub technical_specifications: Vec<(String, FieldValue)>,
}

/// A new machine item.
#[derive(Debug, Clone)]
pub struct MachineItemInput {
    pub machine_id: String,
    pub category_id: String,
    pub name: String,
    pub code: String,
    pub complexity_level: Option<ComplexityLevel>,
    pub status: Option<OperationalStatus>,
    pub location_description: Option<String>,
    pub custom_field_values: Vec<(String, FieldValue)>,
    pub installed_component: Option<InstalledComponentInput>,
    pub replacement_specification: Option<ReplacementSpecification>,
    pub notes: Option<String>,
}

/// New fields for an existing machine item.
#[derive(Debug, Clone)]
pub struct UpdateMachineItem {
    pub id: String,
    pub category_id: String,
    pub name: String,
    pub code: String,
    pub complexity_level: ComplexityLevel,
    pub status: OperationalStatus,
    pub location_description: Option<String>,
    pub custom_field_values: Vec<(String, FieldValue)>,
    pub replacement_specification: ReplacementSpecification,
    pub notes: Option<String>,
}

/// A new order of a machine's active items.
#[derive(Debug, Clone)]
pub struct ReorderMachineItems {
    pub machine_id: String,
    pub item_ids: Vec<String>,
}

/// A physical replacement of an item's unit.
#[derive(Debug, Clone)]
pub struct ReplaceMachineItem {
    pub id: String,
    pub reason: String,
    pub installed_component: InstalledComponentInput,
}

/// A new photo.
#[derive(Debug, Clone)]
pub struct AddPhoto {
    pub owner_type: PhotoOwnerType,
    pub owner_id: String,
    pub purpose: PhotoPurpose,
    pub blob_ref: String,
    pub description: Option<String>,
}

/// The photo to delete, with its stored reference as a confirmation.
#[derive(Debug, Clone)]
pub struct DeletePhoto {
    pub id: String,
    pub blob_ref: String,
}

/// A new service order.
#[derive(Debug, Clone)]
pub struct CreateServiceOrder {
    pub machine_id: String,
    pub item_ids: Vec<String>,
    pub all_items: bool,
    pub description: String,
    pub priority: ServiceOrderPriority,
    pub scheduled_for: Option<String>,
    pub assigned_operator_id: Option<String>,
}

/// An order to start or complete, optionally on behalf of an operator.
#[derive(Debug, Clone)]
pub struct OrderOperator {
    pub id: String,
    pub operator_id: Option<String>,
}

/// An operator for one task of an order.
#[derive(Debug, Clone)]
pub struct AssignOrderTask {
    pub order_id: String,
    pub task_id: String,
    pub operator_id: String,
}

/// The task whose inspection starts.
#[derive(Debug, Clone)]
pub struct StartInspection {
    pub order_id: String,
    pub task_id: String,
    pub operator_id: Option<String>,
}

/// The results of an inspection.
#[derive(Debug, Clone)]
pub struct CompleteInspection {
    pub id: String,
    pub status_after: OperationalStatus,
    pub step_results: Vec<InspectionStepResult>,
    pub findings: Vec<InspectionFinding>,
    pub photo_ids: Vec<String>,
    pub notes: Option<String>,
    pub maintenance_action: Option<String>,
}

/// A technician's restock suggestion.
#[derive(Debug, Clone)]
pub struct CreateRestockRequest {
    pub reference: String,
    pub reason: String,
}

/// The decision on a restock request.
#[derive(Debug, Clone)]
pub struct ReviewRestockRequest {
    pub id: String,
    pub status: RestockStatus,
}

/// A correction of a stock quantity.
#[derive(Debug, Clone)]
pub struct AdjustStock {
    pub id: String,
    pub delta: i32,
    pub reason: String,
}

/// A stock item to create, or to update when its reference exists.
#[derive(Debug, Clone)]
pub struct UpsertStock {
    pub reference: String,
    pub minimum_quantity: u32,
    pub manufacturer: Option<String>,
    pub location: Option<String>,
}

/// A supplier's fields.
#[derive(Debug, Clone)]
pub struct SupplierInput {
    pub name: String,
    pub contact: String,
    pub email: Option<String>,
    pub website: Option<String>,
    pub notes: Option<String>,
}

/// New fields for an existing supplier.
#[derive(Debug, Clone)]
pub struct UpdateSupplier {
    pub id: String,
    pub supplier: SupplierInput,
}

/// A new account.
#[derive(Debug, Clone)]
pub struct CreateUser {
    pub email: String,
    pub name: String,
    pub role: Role,
    pub password_hash: String,
    pub pin_hash: Option<String>,
    pub maximum_repair_level: ComplexityLevel,
}

/// New fields for an existing account.
#[derive(Debug, Clone)]
pub struct UpdateUser {
    pub id: String,
    pub email: String,
    pub name: String,
    pub role: Role,
    pub active: bool,
    pub maximum_repair_level: ComplexityLevel,
}

/// New credentials for an account.
#[derive(Debug, Clone)]
pub struct ResetUserCredentials {
    pub id: String,
    pub password_hash: Option<String>,
    pub pin_hash: Option<String>,
    pub clear_pin: bool,
}

/// A record addressed by its id.
#[derive(Debug, Clone)]
pub struct DeleteById {
    pub id: String,
}

/// The decoded data of a command, or `Undecodable` when it does not fit the command.
#[derive(Debug, Clone)]
pub enum CommandData {
    Category(CategoryInput),
    UpdateCategory(UpdateCategory),
    Machine(MachineInput),
    UpdateMachine(UpdateMachine),
    MachineItem(MachineItemInput),
    UpdateMachineItem(UpdateMachineItem),
    ReorderMachineItems(ReorderMachineItems),
    ReplaceMachineItem(ReplaceMachineItem),
    AddPhoto(AddPhoto),
    DeletePhoto(DeletePhoto),
    CreateServiceOrder(CreateServiceOrder),
    OrderOperator(OrderOperator),
    AssignOrderTask(AssignOrderTask),
    StartInspection(StartInspection),
    CompleteInspection(CompleteInspection),
    CreateRestockRequest(CreateRestockRequest),
    ReviewRestockRequest(ReviewRestockRequest),
    AdjustStock(AdjustStock),
    UpsertStock(UpsertStock),
    Supplier(SupplierInput),
    UpdateSupplier(UpdateSupplier),
    CreateUser(CreateUser),
    UpdateUser(UpdateUser),
    ResetUserCredentials(ResetUserCredentials),
    ById(DeleteById),
    Undecodable,
}

} // verus!
