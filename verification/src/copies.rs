//! Copies of records for snapshots and the audit trail. A copy of a record that holds
//! lists is the same record field by field, each list with the same elements.
use vstd::prelude::*;

use crate::model::{
    copy_text, CustomFieldDefinition, EquivalentPart, ExpectedValue, FieldValue, InspectionFinding,
    InspectionStepResult, InstalledComponent, ItemCategory, ItemCategorySnapshot, ItemInspection,
    Machine, MachineItem, MachineItemSnapshot, MachineSnapshot, MaintenanceGuide, MaintenanceGuideStep,
    PhotoAsset, RecommendedPart, ReplacementSpecification, ServiceOrder, ServiceOrderTask,
};

verus! {

/// A value whose copy is equal to it.
pub trait Duplicate: Sized {
    /// An equal copy.
    fn duplicate(&self) -> (r: Self)
        ensures
            r == *self,
    ;
}

/// A record that holds lists, and what it means for another to be a copy of it.
pub trait DeepCopy: Sized {
    /// `other` is a copy of `self`.
    spec fn same_as(&self, other: &Self) -> bool;

    /// A copy.
    fn deep_copy(&self) -> (r: Self)
        ensures
            self.same_as(&r),
    ;
}

/// `b` holds copies of the elements of `a`, in order.
pub open spec fn same_seq<T: DeepCopy>(a: Seq<T>, b: Seq<T>) -> bool {
    &&& a.len() == b.len()
    &&& forall|i: int| 0 <= i < a.len() ==> (#[trigger] a[i]).same_as(&b[i])
}

/// `b` is absent exactly when `a` is, and a copy of it otherwise.
pub open spec fn same_opt<T: DeepCopy>(a: Option<T>, b: Option<T>) -> bool {
    match a {
        Some(x) => b matches Some(y) && x.same_as(&y),
        None => b is None,
    }
}

/// A list of equal copies.
pub fn copy_vec<T: Duplicate>(v: &Vec<T>) -> (r: Vec<T>)
    ensures
        r@ == v@,
{
    let mut out: Vec<T> = Vec::new();
    let mut i: usize = 0;
    while i < v.len()
        invariant
            i <= v@.len(),
            out@ == v@.take(i as int),
        decreases v@.len() - i,
    {
        out.push(v[i].duplicate());
        assert(v@.take(i + 1) == v@.take(i as int).push(v@[i as int]));
        i += 1;
    }
    assert(v@.take(v@.len() as int) == v@);
    out
}

/// A list of copies.
pub fn deep_copy_vec<T: DeepCopy>(v: &Vec<T>) -> (r: Vec<T>)
    ensures
        same_seq(v@, r@),
{
    let mut out: Vec<T> = Vec::new();
    let mut i: usize = 0;
    while i < v.len()
        invariant
            i <= v@.len(),
            out@.len() == i,
            forall|k: int| 0 <= k < i ==> (#[trigger] v@[k]).same_as(&out@[k]),
        decreases v@.len() - i,
    {
        out.push(v[i].deep_copy());
        i += 1;
    }
    out
}

/// A copy of an optional record.
pub fn deep_copy_opt<T: DeepCopy>(v: &Option<T>) -> (r: Option<T>)
    ensures
        same_opt(*v, r),
{
    match v {
        Some(x) => Some(x.deep_copy()),
        None => None,
    }
}

/// A list of texts, copied.
pub fn copy_texts(v: &Vec<String>) -> (r: Vec<String>)
    ensures
        r@ == v@,
{
    v.clone()
}

impl Duplicate for FieldValue {
    fn duplicate(&self) -> (r: Self) {
        match self {
            FieldValue::Null => FieldValue::Null,
            FieldValue::Bool(b) => FieldValue::Bool(*b),
            FieldValue::Number { value, literal } => FieldValue::Number {
                value: *value,
                literal: literal.clone(),
            },
            FieldValue::Text(t) => FieldValue::Text(t.clone()),
            FieldValue::Structured(t) => FieldValue::Structured(t.clone()),
        }
    }
}

/// Named values, copied.
pub fn copy_pairs(v: &Vec<(String, FieldValue)>) -> (r: Vec<(String, FieldValue)>)
    ensures
        r@ == v@,
{
    let mut out: Vec<(String, FieldValue)> = Vec::new();
    let mut i: usize = 0;
    while i < v.len()
        invariant
            i <= v@.len(),
            out@ == v@.take(i as int),
        decreases v@.len() - i,
    {
        let pair = (v[i].0.clone(), v[i].1.duplicate());
        out.push(pair);
        assert(v@.take(i + 1) == v@.take(i as int).push(v@[i as int]));
        i += 1;
    }
    assert(v@.take(v@.len() as int) == v@);
    out
}

impl Duplicate for ExpectedValue {
    fn duplicate(&self) -> (r: Self) {
        ExpectedValue {
            unit: copy_text(&self.unit),
            minimum: self.minimum,
            maximum: self.maximum,
            target: copy_text(&self.target),
        }
    }
}

impl Duplicate for RecommendedPart {
    fn duplicate(&self) -> (r: Self) {
        RecommendedPart {
            manufacturer: copy_text(&self.manufacturer),
            part_number: self.part_number.clone(),
            description: copy_text(&self.description),
        }
    }
}

impl Duplicate for EquivalentPart {
    fn duplicate(&self) -> (r: Self) {
        EquivalentPart {
            manufacturer: copy_text(&self.manufacturer),
            part_number: self.part_number.clone(),
            model: copy_text(&self.model),
            notes: copy_text(&self.notes),
        }
    }
}

impl Duplicate for PhotoAsset {
    fn duplicate(&self) -> (r: Self) {
        PhotoAsset {
            id: self.id.clone(),
            owner_type: self.owner_type,
            owner_id: self.owner_id.clone(),
            purpose: self.purpose,
            blob_ref: self.blob_ref.clone(),
            description: copy_text(&self.description),
            created_by: self.created_by.clone(),
            created_at_ms: self.created_at_ms,
        }
    }
}

impl Duplicate for InspectionFinding {
    fn duplicate(&self) -> (r: Self) {
        InspectionFinding {
            description: self.description.clone(),
            severity: self.severity,
            action_required: copy_text(&self.action_required),
        }
    }
}

impl Duplicate for Machine {
    fn duplicate(&self) -> (r: Self) {
        Machine {
            id: self.id.clone(),
            code: self.code.clone(),
            code_normalized: self.code_normalized.clone(),
            name: self.name.clone(),
            description: copy_text(&self.description),
            zone: self.zone.clone(),
            location: copy_text(&self.location),
            manufacturer: copy_text(&self.manufacturer),
            model: copy_text(&self.model),
            serial_number: copy_text(&self.serial_number),
            status: self.status,
            main_photo_id: copy_text(&self.main_photo_id),
            active: self.active,
            created_at_ms: self.created_at_ms,
            updated_at_ms: self.updated_at_ms,
        }
    }
}

impl Duplicate for MachineSnapshot {
    fn duplicate(&self) -> (r: Self) {
        MachineSnapshot {
            id: self.id.clone(),
            code: self.code.clone(),
            name: self.name.clone(),
            zone: self.zone.clone(),
            location: copy_text(&self.location),
        }
    }
}

/// An optional expected value, copied.
fn copy_expected(v: &Option<ExpectedValue>) -> (r: Option<ExpectedValue>)
    ensures
        r == *v,
{
    match v {
        Some(e) => Some(e.duplicate()),
        None => None,
    }
}

impl DeepCopy for MaintenanceGuideStep {
    open spec fn same_as(&self, other: &Self) -> bool {
        &&& *other == MaintenanceGuideStep {
            reference_photo_ids: other.reference_photo_ids,
            options: other.options,
            ..*self
        }
        &&& other.reference_photo_ids@ == self.reference_photo_ids@
        &&& other.options@ == self.options@
    }

    fn deep_copy(&self) -> (r: Self) {
        MaintenanceGuideStep {
            id: self.id.clone(),
            title: self.title.clone(),
            description: copy_text(&self.description),
            instructions: self.instructions.clone(),
            step_type: self.step_type,
            required: self.required,
            reference_photo_ids: copy_texts(&self.reference_photo_ids),
            safety_warning: copy_text(&self.safety_warning),
            expected_value: copy_expected(&self.expected_value),
            options: copy_texts(&self.options),
            order: self.order,
        }
    }
}

impl DeepCopy for MaintenanceGuide {
    open spec fn same_as(&self, other: &Self) -> bool {
        &&& other.version == self.version
        &&& same_seq(self.steps@, other.steps@)
    }

    fn deep_copy(&self) -> (r: Self) {
        MaintenanceGuide { version: self.version, steps: deep_copy_vec(&self.steps) }
    }
}

impl DeepCopy for CustomFieldDefinition {
    open spec fn same_as(&self, other: &Self) -> bool {
        &&& *other == CustomFieldDefinition { options: other.options, ..*self }
        &&& other.options@ == self.options@
    }

    fn deep_copy(&self) -> (r: Self) {
        CustomFieldDefinition {
            id: self.id.clone(),
            key: self.key.clone(),
            label: self.label.clone(),
            field_type: self.field_type,
            required: self.required,
            unit: copy_text(&self.unit),
            options: copy_texts(&self.options),
            minimum: self.minimum,
            maximum: self.maximum,
            order: self.order,
        }
    }
}

impl DeepCopy for ItemCategory {
    open spec fn same_as(&self, other: &Self) -> bool {
        &&& *other == ItemCategory {
            maintenance_guide: other.maintenance_guide,
            custom_field_definitions: other.custom_field_definitions,
            recommended_parts: other.recommended_parts,
            ..*self
        }
        &&& self.maintenance_guide.same_as(&other.maintenance_guide)
        &&& same_seq(self.custom_field_definitions@, other.custom_field_definitions@)
        &&& other.recommended_parts@ == self.recommended_parts@
    }

    fn deep_copy(&self) -> (r: Self) {
        ItemCategory {
            id: self.id.clone(),
            code: self.code.clone(),
            code_normalized: self.code_normalized.clone(),
            name: self.name.clone(),
            description: copy_text(&self.description),
            icon: copy_text(&self.icon),
            default_complexity_level: self.default_complexity_level,
            maintenance_guide: self.maintenance_guide.deep_copy(),
            custom_field_definitions: deep_copy_vec(&self.custom_field_definitions),
            recommended_parts: copy_vec(&self.recommended_parts),
            active: self.active,
            created_at_ms: self.created_at_ms,
            updated_at_ms: self.updated_at_ms,
        }
    }
}

impl DeepCopy for InstalledComponent {
    open spec fn same_as(&self, other: &Self) -> bool {
        &&& *other == InstalledComponent {
            technical_specifications: other.technical_specifications,
            ..*self
        }
        &&& other.technical_specifications@ == self.technical_specifications@
    }

    fn deep_copy(&self) -> (r: Self) {
        InstalledComponent {
            installation_id: self.installation_id.clone(),
            manufacturer: copy_text(&self.manufacturer),
            model: copy_text(&self.model),
            part_number: copy_text(&self.part_number),
            serial_number: copy_text(&self.serial_number),
            installed_at: copy_text(&self.installed_at),
            technical_specifications: copy_pairs(&self.technical_specifications),
        }
    }
}

impl DeepCopy for ReplacementSpecification {
    open spec fn same_as(&self, other: &Self) -> bool {
        &&& *other == ReplacementSpecification {
            technical_specifications: other.technical_specifications,
            equivalent_parts: other.equivalent_parts,
            photo_ids: other.photo_ids,
            ..*self
        }
        &&& other.technical_specifications@ == self.technical_specifications@
        &&& other.equivalent_parts@ == self.equivalent_parts@
        &&& other.photo_ids@ == self.photo_ids@
    }

    fn deep_copy(&self) -> (r: Self) {
        ReplacementSpecification {
            manufacturer: copy_text(&self.manufacturer),
            part_number: copy_text(&self.part_number),
            model: copy_text(&self.model),
            serial_number: copy_text(&self.serial_number),
            technical_specifications: copy_pairs(&self.technical_specifications),
            compatibility_notes: copy_text(&self.compatibility_notes),
            equivalent_parts: copy_vec(&self.equivalent_parts),
            supplier_reference: copy_text(&self.supplier_reference),
            photo_ids: copy_texts(&self.photo_ids),
        }
    }
}

impl DeepCopy for MachineItem {
    open spec fn same_as(&self, other: &Self) -> bool {
        &&& *other == MachineItem {
            custom_field_values: other.custom_field_values,
            maintenance_guide_override: other.maintenance_guide_override,
            installed_component: other.installed_component,
            replacement_specification: other.replacement_specification,
            ..*self
        }
        &&& other.custom_field_values@ == self.custom_field_values@
        &&& same_opt(self.maintenance_guide_override, other.maintenance_guide_override)
        &&& same_opt(self.installed_component, other.installed_component)
        &&& self.replacement_specification.same_as(&other.replacement_specification)
    }

    fn deep_copy(&self) -> (r: Self) {
        MachineItem {
            id: self.id.clone(),
            machine_id: self.machine_id.clone(),
            category_id: self.category_id.clone(),
            name: self.name.clone(),
            code: self.code.clone(),
            code_normalized: self.code_normalized.clone(),
            complexity_level: self.complexity_level,
            status: self.status,
            position: self.position,
            location_description: copy_text(&self.location_description),
            custom_field_values: copy_pairs(&self.custom_field_values),
            maintenance_guide_override: deep_copy_opt(&self.maintenance_guide_override),
            installed_component: deep_copy_opt(&self.installed_component),
            replacement_specification: self.replacement_specification.deep_copy(),
            notes: copy_text(&self.notes),
            active: self.active,
            removed_at_ms: self.removed_at_ms,
            created_at_ms: self.created_at_ms,
            updated_at_ms: self.updated_at_ms,
        }
    }
}

impl DeepCopy for ItemCategorySnapshot {
    open spec fn same_as(&self, other: &Self) -> bool {
        &&& *other == ItemCategorySnapshot {
            maintenance_guide: other.maintenance_guide,
            guide_reference_photos: other.guide_reference_photos,
            ..*self
        }
        &&& self.maintenance_guide.same_as(&other.maintenance_guide)
        &&& other.guide_reference_photos@ == self.guide_reference_photos@
    }

    fn deep_copy(&self) -> (r: Self) {
        ItemCategorySnapshot {
            id: self.id.clone(),
            code: self.code.clone(),
            name: self.name.clone(),
            guide_version: self.guide_version,
            maintenance_guide: self.maintenance_guide.deep_copy(),
            guide_reference_photos: copy_vec(&self.guide_reference_photos),
        }
    }
}

impl DeepCopy for MachineItemSnapshot {
    open spec fn same_as(&self, other: &Self) -> bool {
        &&& *other == MachineItemSnapshot {
            category: other.category,
            installed_component: other.installed_component,
            ..*self
        }
        &&& self.category.same_as(&other.category)
        &&& same_opt(self.installed_component, other.installed_component)
    }

    fn deep_copy(&self) -> (r: Self) {
        MachineItemSnapshot {
            id: self.id.clone(),
            machine_id: self.machine_id.clone(),
            category: self.category.deep_copy(),
            name: self.name.clone(),
            code: self.code.clone(),
            complexity_level: self.complexity_level,
            installed_component: deep_copy_opt(&self.installed_component),
        }
    }
}

impl DeepCopy for ServiceOrderTask {
    open spec fn same_as(&self, other: &Self) -> bool {
        &&& *other == ServiceOrderTask { item_snapshot: other.item_snapshot, ..*self }
        &&& self.item_snapshot.same_as(&other.item_snapshot)
    }

    fn deep_copy(&self) -> (r: Self) {
        ServiceOrderTask {
            id: self.id.clone(),
            machine_item_id: self.machine_item_id.clone(),
            item_snapshot: self.item_snapshot.deep_copy(),
            complexity_snapshot: self.complexity_snapshot,
            assigned_operator_id: copy_text(&self.assigned_operator_id),
            status: self.status,
            started_at_ms: self.started_at_ms,
            completed_at_ms: self.completed_at_ms,
            inspection_id: copy_text(&self.inspection_id),
        }
    }
}

impl DeepCopy for ServiceOrder {
    open spec fn same_as(&self, other: &Self) -> bool {
        &&& *other == ServiceOrder { tasks: other.tasks, ..*self }
        &&& same_seq(self.tasks@, other.tasks@)
    }

    fn deep_copy(&self) -> (r: Self) {
        ServiceOrder {
            id: self.id.clone(),
            machine_id: self.machine_id.clone(),
            machine_snapshot: self.machine_snapshot.duplicate(),
            description: self.description.clone(),
            priority: self.priority,
            status: self.status,
            created_by: self.created_by.clone(),
            scheduled_for: copy_text(&self.scheduled_for),
            tasks: deep_copy_vec(&self.tasks),
            created_at_ms: self.created_at_ms,
            started_at_ms: self.started_at_ms,
            completed_at_ms: self.completed_at_ms,
            updated_at_ms: self.updated_at_ms,
        }
    }
}

impl DeepCopy for InspectionStepResult {
    open spec fn same_as(&self, other: &Self) -> bool {
        &&& *other == InspectionStepResult { photo_ids: other.photo_ids, ..*self }
        &&& other.photo_ids@ == self.photo_ids@
    }

    fn deep_copy(&self) -> (r: Self) {
        InspectionStepResult {
            step_id: self.step_id.clone(),
            value: self.value.duplicate(),
            unit: copy_text(&self.unit),
            photo_ids: copy_texts(&self.photo_ids),
        }
    }
}

impl DeepCopy for ItemInspection {
    open spec fn same_as(&self, other: &Self) -> bool {
        &&& *other == ItemInspection {
            category_snapshot: other.category_snapshot,
            step_results: other.step_results,
            findings: other.findings,
            photo_ids: other.photo_ids,
            ..*self
        }
        &&& self.category_snapshot.same_as(&other.category_snapshot)
        &&& same_seq(self.step_results@, other.step_results@)
        &&& other.findings@ == self.findings@
        &&& other.photo_ids@ == self.photo_ids@
    }

    fn deep_copy(&self) -> (r: Self) {
        ItemInspection {
            id: self.id.clone(),
            service_order_task_id: copy_text(&self.service_order_task_id),
            service_order_id: copy_text(&self.service_order_id),
            machine_id: self.machine_id.clone(),
            machine_item_id: self.machine_item_id.clone(),
            category_snapshot: self.category_snapshot.deep_copy(),
            operator_id: self.operator_id.clone(),
            operator_name: self.operator_name.clone(),
            status: self.status,
            started_at_ms: self.started_at_ms,
            completed_at_ms: self.completed_at_ms,
            status_before: self.status_before,
            status_after: self.status_after,
            step_results: deep_copy_vec(&self.step_results),
            findings: copy_vec(&self.findings),
            photo_ids: copy_texts(&self.photo_ids),
            notes: copy_text(&self.notes),
            maintenance_action: copy_text(&self.maintenance_action),
        }
    }
}

} // verus!
