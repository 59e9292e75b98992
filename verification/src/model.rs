//! The asset-maintenance data model: machines, their items, guides, work orders,
//! inspections, inventory, people and the audit trail.
use vstd::prelude::*;

verus! {

/// An equal copy of optional text.
pub fn copy_text(value: &Option<String>) -> (r: Option<String>)
    ensures
        r == *value,
{
    match value {
        Some(v) => Some(v.clone()),
        None => None,
    }
}

/// How hard a repair is, from 1 (trivial) to 5 (expert only).
#[derive(Debug, Clone, Copy)]
pub struct ComplexityLevel {
    level: u8,
}

impl ComplexityLevel {
    /// The lowest level.
    pub const MIN: u8 = 1;

    /// The highest level.
    pub const MAX: u8 = 5;

    #[verifier::type_invariant]
    spec fn in_range(self) -> bool {
        1 <= self.level <= 5
    }

    /// The level as a number.
    pub closed spec fn value(self) -> u8 {
        self.level
    }

    /// A level from its number: `Ok` exactly for 1 through 5.
    pub fn new(value: u8) -> (r: Result<Self, &'static str>)
        ensures
            r is Ok <==> 1 <= value <= 5,
            r matches Ok(l) ==> l.value() == value,
            r matches Err(e) ==> e@ == "complexity_level_out_of_range"@,
    {
        if 1 <= value && value <= 5 {
            Ok(ComplexityLevel { level: value })
        } else {
            Err("complexity_level_out_of_range")
        }
    }

    /// The level's number.
    pub fn get(self) -> (r: u8)
        ensures
            r == self.value(),
            1 <= r <= 5,
    {
        proof {
            use_type_invariant(&self);
        }
        self.level
    }

    /// A level is its number: two levels with the same number are the same level. With the
    /// contracts of `new` and `get`, `new(l.get())` gives back `Ok(l)`.
    pub proof fn lemma_level_is_its_number(a: ComplexityLevel, b: ComplexityLevel)
        requires
            a.value() == b.value(),
        ensures
            a == b,
    {
    }

    /// Level 3, the default for new people and legacy assets.
    pub fn intermediate() -> (r: Self)
        ensures
            r.value() == 3,
    {
        ComplexityLevel { level: 3 }
    }

    /// Level 5, the default for administrators and supervisors.
    pub fn expert() -> (r: Self)
        ensures
            r.value() == 5,
    {
        ComplexityLevel { level: 5 }
    }
}

impl Default for ComplexityLevel {
    fn default() -> (r: Self)
        ensures
            r.value() == 3,
    {
        ComplexityLevel { level: 3 }
    }
}

/// The condition of a machine or of one of its items.
#[derive(Debug, Clone, Copy, PartialEq, Eq, Structural)]
pub enum OperationalStatus {
    Unknown,
    Okay,
    Attention,
    Critical,
    MaintenanceRequired,
    UnderMaintenance,
    Disabled,
}

impl Default for OperationalStatus {
    fn default() -> (r: Self)
        ensures
            r == OperationalStatus::Unknown,
    {
        OperationalStatus::Unknown
    }
}

/// The kind of value a custom field holds.
#[derive(Debug, Clone, Copy, PartialEq, Eq, Structural)]
pub enum CustomFieldType {
    Text,
    Number,
    Boolean,
    Choice,
    Date,
}

/// The kind of answer a guide step asks for.
#[derive(Debug, Clone, Copy, PartialEq, Eq, Structural)]
pub enum GuideStepType {
    Confirmation,
    Boolean,
    Choice,
    Numeric,
    Text,
    Photo,
    Measurement,
    Information,
    Warning,
}

/// A number as the bit pattern of an IEEE-754 binary64 value (what JSON numbers are
/// read as). Finite values are ordered by `number_key`.
#[derive(Debug, Clone, Copy, PartialEq, Eq, Structural)]
pub struct NumberBits {
    pub bits: u64,
}

/// A field value as the rules read it; structured values keep their encoded JSON text.
#[derive(Debug, Clone)]
pub enum FieldValue {
    Null,
    Bool(bool),
    Number { value: NumberBits, literal: String },
    Text(String),
    Structured(String),
}

/// One named custom field of a category.
#[derive(Debug, Clone)]
pub struct CustomFieldDefinition {
    pub id: String,
    pub key: String,
    pub label: String,
    pub field_type: CustomFieldType,
    pub required: bool,
    pub unit: Option<String>,
    pub options: Vec<String>,
    pub minimum: Option<NumberBits>,
    pub maximum: Option<NumberBits>,
    pub order: u32,
}

/// The value a measurement step expects.
#[derive(Debug, Clone)]
pub struct ExpectedValue {
    pub unit: Option<String>,
    pub minimum: Option<NumberBits>,
    pub maximum: Option<NumberBits>,
    pub target: Option<String>,
}

/// One step of a maintenance guide.
#[derive(Debug, Clone)]
pub struct MaintenanceGuideStep {
    pub id: String,
    pub title: String,
    pub description: Option<String>,
    pub instructions: String,
    pub step_type: GuideStepType,
    pub required: bool,
    pub reference_photo_ids: Vec<String>,
    pub safety_warning: Option<String>,
    pub expected_value: Option<ExpectedValue>,
    pub options: Vec<String>,
    pub order: u32,
}

/// A versioned list of steps.
#[derive(Debug, Clone)]
pub struct MaintenanceGuide {
    pub version: u32,
    pub steps: Vec<MaintenanceGuideStep>,
}

impl Default for MaintenanceGuide {
    fn default() -> (r: Self)
        ensures
            r.version == 1,
            r.steps@.len() == 0,
    {
        MaintenanceGuide { version: 1, steps: Vec::new() }
    }
}

/// A part recommended for a category.
#[derive(Debug, Clone)]
pub struct RecommendedPart {
    pub manufacturer: Option<String>,
    pub part_number: String,
    pub description: Option<String>,
}

/// A kind of component (motor, valve, ...) with its fields and guide.
#[derive(Debug, Clone)]
pub struct ItemCategory {
    pub id: String,
    pub code: String,
    pub code_normalized: String,
    pub name: String,
    pub description: Option<String>,
    pub icon: Option<String>,
    pub default_complexity_level: ComplexityLevel,
    pub maintenance_guide: MaintenanceGuide,
    pub custom_field_definitions: Vec<CustomFieldDefinition>,
    pub recommended_parts: Vec<RecommendedPart>,
    pub active: bool,
    pub created_at_ms: u64,
    pub updated_at_ms: u64,
}

/// A machine on the shop floor.
#[derive(Debug, Clone)]
pub struct Machine {
    pub id: String,
    pub code: String,
    pub code_normalized: String,
    pub name: String,
    pub description: Option<String>,
    pub zone: String,
    pub location: Option<String>,
    pub manufacturer: Option<String>,
    pub model: Option<String>,
    pub serial_number: Option<String>,
    pub status: OperationalStatus,
    pub main_photo_id: Option<String>,
    pub active: bool,
    pub created_at_ms: u64,
    pub updated_at_ms: u64,
}

/// The physical unit currently installed in an item position.
#[derive(Debug, Clone)]
pub struct InstalledComponent {
    pub installation_id: String,
    pub manufacturer: Option<String>,
    pub model: Option<String>,
    pub part_number: Option<String>,
    pub serial_number: Option<String>,
    pub installed_at: Option<String>,
    pub technical_specifications: Vec<(String, FieldValue)>,
}

/// A part that can stand in for the specified one.
#[derive(Debug, Clone)]
pub struct EquivalentPart {
    pub manufacturer: Option<String>,
    pub part_number: String,
    pub model: Option<String>,
    pub notes: Option<String>,
}

/// What to buy when the item must be replaced.
#[derive(Debug, Clone)]
pub struct ReplacementSpecification {
    pub manufacturer: Option<String>,
    pub part_number: Option<String>,
    pub model: Option<String>,
    pub serial_number: Option<String>,
    pub technical_specifications: Vec<(String, FieldValue)>,
    pub compatibility_notes: Option<String>,
    pub equivalent_parts: Vec<EquivalentPart>,
    pub supplier_reference: Option<String>,
    pub photo_ids: Vec<String>,
}

impl Default for ReplacementSpecification {
    fn default() -> (r: Self)
        ensures
            r.part_number is None,
    {
        ReplacementSpecification {
            manufacturer: None,
            part_number: None,
            model: None,
            serial_number: None,
            technical_specifications: Vec::new(),
            compatibility_notes: None,
            equivalent_parts: Vec::new(),
            supplier_reference: None,
            photo_ids: Vec::new(),
        }
    }
}

/// One maintained position of a machine.
#[derive(Debug, Clone)]
pub struct MachineItem {
    pub id: String,
    pub machine_id: String,
    pub category_id: String,
    pub name: String,
    pub code: String,
    pub code_normalized: String,
    pub complexity_level: ComplexityLevel,
    pub status: OperationalStatus,
    pub position: u32,
    pub location_description: Option<String>,
    pub custom_field_values: Vec<(String, FieldValue)>,
    pub maintenance_guide_override: Option<MaintenanceGuide>,
    pub installed_component: Option<InstalledComponent>,
    pub replacement_specification: ReplacementSpecification,
    pub notes: Option<String>,
    pub active: bool,
    pub removed_at_ms: Option<u64>,
    pub created_at_ms: u64,
    pub updated_at_ms: u64,
}

/// A record of one physical unit replacing another.
#[derive(Debug, Clone)]
pub struct MachineItemReplacement {
    pub id: String,
    pub machine_item_id: String,
    pub previous: Option<InstalledComponent>,
    pub current: InstalledComponent,
    pub reason: String,
    pub replaced_by: String,
    pub replaced_at_ms: u64,
}

/// What a photo is attached to.
#[derive(Debug, Clone, Copy, PartialEq, Eq, Structural)]
pub enum PhotoOwnerType {
    Machine,
    MachineItem,
    GuideStep,
    Inspection,
    Replacement,
}

/// Why a photo was taken.
#[derive(Debug, Clone, Copy, PartialEq, Eq, Structural)]
pub enum PhotoPurpose {
    Main,
    General,
    Reference,
    Before,
    During,
    After,
    Defect,
    Evidence,
}

/// A stored photo and its owner.
#[derive(Debug, Clone)]
pub struct PhotoAsset {
    pub id: String,
    pub owner_type: PhotoOwnerType,
    pub owner_id: String,
    pub purpose: PhotoPurpose,
    pub blob_ref: String,
    pub description: Option<String>,
    pub created_by: String,
    pub created_at_ms: u64,
}

/// The life cycle of a service order.
#[derive(Debug, Clone, Copy, PartialEq, Eq, Structural)]
pub enum ServiceOrderStatus {
    Pending,
    InProgress,
    Completed,
    Cancelled,
}

/// How urgent a service order is.
#[derive(Debug, Clone, Copy, PartialEq, Eq, Structural)]
pub enum ServiceOrderPriority {
    Low,
    Normal,
    High,
    Urgent,
}

/// The life cycle of one task of a service order.
#[derive(Debug, Clone, Copy, PartialEq, Eq, Structural)]
pub enum ServiceOrderTaskStatus {
    Pending,
    InProgress,
    Completed,
}

/// The machine as it was when an order was created.
#[derive(Debug, Clone)]
pub struct MachineSnapshot {
    pub id: String,
    pub code: String,
    pub name: String,
    pub zone: String,
    pub location: Option<String>,
}

/// A category as it was when an order was created.
#[derive(Debug, Clone)]
pub struct ItemCategorySnapshot {
    pub id: String,
    pub code: String,
    pub name: String,
    pub guide_version: u32,
    pub maintenance_guide: MaintenanceGuide,
    pub guide_reference_photos: Vec<PhotoAsset>,
}

/// An item as it was when an order was created.
#[derive(Debug, Clone)]
pub struct MachineItemSnapshot {
    pub id: String,
    pub machine_id: String,
    pub category: ItemCategorySnapshot,
    pub name: String,
    pub code: String,
    pub complexity_level: ComplexityLevel,
    pub installed_component: Option<InstalledComponent>,
}

/// The work on one item within a service order.
#[derive(Debug, Clone)]
pub struct ServiceOrderTask {
    pub id: String,
    pub machine_item_id: String,
    pub item_snapshot: MachineItemSnapshot,
    pub complexity_snapshot: ComplexityLevel,
    pub assigned_operator_id: Option<String>,
    pub status: ServiceOrderTaskStatus,
    pub started_at_ms: Option<u64>,
    pub completed_at_ms: Option<u64>,
    pub inspection_id: Option<String>,
}

/// A planned intervention on one machine.
#[derive(Debug, Clone)]
pub struct ServiceOrder {
    pub id: String,
    pub machine_id: String,
    pub machine_snapshot: MachineSnapshot,
    pub description: String,
    pub priority: ServiceOrderPriority,
    pub status: ServiceOrderStatus,
    pub created_by: String,
    pub scheduled_for: Option<String>,
    pub tasks: Vec<ServiceOrderTask>,
    pub created_at_ms: u64,
    pub started_at_ms: Option<u64>,
    pub completed_at_ms: Option<u64>,
    pub updated_at_ms: u64,
}

/// The life cycle of an inspection.
#[derive(Debug, Clone, Copy, PartialEq, Eq, Structural)]
pub enum InspectionStatus {
    InProgress,
    Completed,
}

/// The answer to one guide step.
#[derive(Debug, Clone)]
pub struct InspectionStepResult {
    pub step_id: String,
    pub value: FieldValue,
    pub unit: Option<String>,
    pub photo_ids: Vec<String>,
}

/// Something found during an inspection.
#[derive(Debug, Clone)]
pub struct InspectionFinding {
    pub description: String,
    pub severity: OperationalStatus,
    pub action_required: Option<String>,
}

/// One guided inspection of one item.
#[derive(Debug, Clone)]
pub struct ItemInspection {
    pub id: String,
    pub service_order_task_id: Option<String>,
    pub service_order_id: Option<String>,
    pub machine_id: String,
    pub machine_item_id: String,
    pub category_snapshot: ItemCategorySnapshot,
    pub operator_id: String,
    pub operator_name: String,
    pub status: InspectionStatus,
    pub started_at_ms: u64,
    pub completed_at_ms: Option<u64>,
    pub status_before: OperationalStatus,
    pub status_after: Option<OperationalStatus>,
    pub step_results: Vec<InspectionStepResult>,
    pub findings: Vec<InspectionFinding>,
    pub photo_ids: Vec<String>,
    pub notes: Option<String>,
    pub maintenance_action: Option<String>,
}

/// The review state of a restock request.
#[derive(Debug, Clone, Copy, PartialEq, Eq, Structural)]
pub enum RestockStatus {
    Pending,
    Approved,
    Rejected,
}

/// A technician's suggestion to buy more of a part.
#[derive(Debug, Clone)]
pub struct RestockRequest {
    pub id: String,
    pub reference: String,
    pub reason: String,
    pub requested_by: String,
    pub status: RestockStatus,
    pub reviewed_by: Option<String>,
    pub reviewed_at_ms: Option<u64>,
    pub created_at_ms: u64,
}

/// A part kept in stock.
#[derive(Debug, Clone)]
pub struct StockItem {
    pub id: String,
    pub reference: String,
    pub reference_normalized: String,
    pub quantity: u32,
    pub minimum_quantity: u32,
    pub manufacturer: Option<String>,
    pub location: Option<String>,
    pub created_at_ms: u64,
    pub updated_at_ms: u64,
}

impl RestockRequest {
    /// An equal copy.
    pub fn duplicate(&self) -> (r: Self)
        ensures
            r == *self,
    {
        RestockRequest {
            id: self.id.clone(),
            reference: self.reference.clone(),
            reason: self.reason.clone(),
            requested_by: self.requested_by.clone(),
            status: self.status,
            reviewed_by: copy_text(&self.reviewed_by),
            reviewed_at_ms: self.reviewed_at_ms,
            created_at_ms: self.created_at_ms,
        }
    }
}

impl StockItem {
    /// An equal copy.
    pub fn duplicate(&self) -> (r: Self)
        ensures
            r == *self,
    {
        StockItem {
            id: self.id.clone(),
            reference: self.reference.clone(),
            reference_normalized: self.reference_normalized.clone(),
            quantity: self.quantity,
            minimum_quantity: self.minimum_quantity,
            manufacturer: copy_text(&self.manufacturer),
            location: copy_text(&self.location),
            created_at_ms: self.created_at_ms,
            updated_at_ms: self.updated_at_ms,
        }
    }
}

/// Why a stock quantity changed.
#[derive(Debug, Clone, Copy, PartialEq, Eq, Structural)]
pub enum StockMovementKind {
    Receipt,
    Consumption,
    Correction,
    Migration,
}

/// One change of a stock quantity.
#[derive(Debug, Clone)]
pub struct StockMovement {
    pub id: String,
    pub stock_item_id: String,
    pub kind: StockMovementKind,
    pub delta: i32,
    pub balance_after: u32,
    pub reason: String,
    pub actor: String,
    pub idempotency_key: String,
    pub created_at_ms: u64,
}

/// A company that sells parts.
#[derive(Debug, Clone)]
pub struct Supplier {
    pub id: String,
    pub name: String,
    pub contact: String,
    pub email: Option<String>,
    pub website: Option<String>,
    pub notes: Option<String>,
    pub created_by: String,
    pub created_at_ms: u64,
    pub updated_at_ms: u64,
}

impl Supplier {
    /// An equal copy.
    pub fn duplicate(&self) -> (r: Self)
        ensures
            r == *self,
    {
        Supplier {
            id: self.id.clone(),
            name: self.name.clone(),
            contact: self.contact.clone(),
            email: copy_text(&self.email),
            website: copy_text(&self.website),
            notes: copy_text(&self.notes),
            created_by: self.created_by.clone(),
            created_at_ms: self.created_at_ms,
            updated_at_ms: self.updated_at_ms,
        }
    }
}

/// A person who may sign in.
#[derive(Debug, Clone)]
pub struct UserAccount {
    pub id: String,
    pub email: String,
    pub name: String,
    pub role: String,
    pub password_hash: String,
    pub pin_hash: Option<String>,
    pub active: bool,
    pub maximum_repair_level: ComplexityLevel,
    pub auth_version: u64,
    pub created_at_ms: u64,
    pub updated_at_ms: u64,
}

impl UserAccount {
    /// An equal copy.
    pub fn duplicate(&self) -> (r: Self)
        ensures
            r == *self,
    {
        UserAccount {
            id: self.id.clone(),
            email: self.email.clone(),
            name: self.name.clone(),
            role: self.role.clone(),
            password_hash: self.password_hash.clone(),
            pin_hash: copy_text(&self.pin_hash),
            active: self.active,
            maximum_repair_level: self.maximum_repair_level,
            auth_version: self.auth_version,
            created_at_ms: self.created_at_ms,
            updated_at_ms: self.updated_at_ms,
        }
    }
}

/// The fields of an account that the audit trail may show: never its credential hashes.
#[derive(Debug, Clone)]
pub struct UserAuditView {
    pub id: String,
    pub email: String,
    pub name: String,
    pub role: String,
    pub active: bool,
    pub maximum_repair_level: ComplexityLevel,
    pub has_pin: bool,
    pub auth_version: u64,
}

/// A value recorded before or after a change, to be encoded for the audit trail.
#[derive(Debug, Clone)]
pub enum AuditRecord {
    Category(ItemCategory),
    Guide(MaintenanceGuide),
    Machine(Machine),
    Item(MachineItem),
    ItemPositions(Vec<(String, u32)>),
    ItemIds(Vec<String>),
    Status(OperationalStatus),
    Photo(PhotoAsset),
    Order(ServiceOrder),
    Task(ServiceOrderTask),
    Inspection(ItemInspection),
    Restock(RestockRequest),
    Stock(StockItem),
    Supplier(Supplier),
    User(UserAuditView),
    Encoded(String),
}

/// One entry of the audit trail.
#[derive(Debug, Clone)]
pub struct AuditEvent {
    pub id: String,
    pub actor: String,
    pub role: String,
    pub operation: String,
    pub aggregate: String,
    pub aggregate_id: String,
    pub description: Option<String>,
    pub trace_id: Option<String>,
    pub before_json: Option<AuditRecord>,
    pub after_json: Option<AuditRecord>,
    pub result: String,
    pub created_at_ms: u64,
}

/// How many days since the last maintenance tell about an asset.
#[derive(Debug, Clone, Copy, PartialEq, Eq, Structural)]
pub enum MaintenanceHealth {
    Okay,
    Warning,
    Critical,
}

/// A version of the persisted layout.
#[derive(Debug, Clone, Copy, PartialEq, Eq, Structural)]
pub struct SchemaVersion(pub u32);

impl SchemaVersion {
    /// The first persisted layout.
    pub fn initial() -> (r: SchemaVersion)
        ensures
            r.0 == 1,
    {
        SchemaVersion(1)
    }
}

} // verus!
