//! Item categories: their custom fields and maintenance guide, checked and kept in order.
use vstd::prelude::*;

use crate::commands::{CategoryInput, CommandData};
use crate::copies::DeepCopy;
use crate::lookup::{index_of_id, position_of_id};
use crate::model::{
    AuditRecord, CustomFieldDefinition, CustomFieldType, ExpectedValue, GuideStepType, ItemCategory,
    MaintenanceGuide, MaintenanceGuideStep, NumberBits,
};
use crate::numbers::{equal_numbers, less_than, number_eq, number_lt};
use crate::ordering::{is_stable_sort, stable_sort_by_key};
use crate::permissions::{allowed, require_permission, Role};
use crate::policy::{normalize_identifier, normalized_identifier};
use crate::state::{
    domain_action, event_is, invalid_data, require_text, supplemental_event_ok, Action, Actor,
    ApplicationState,
};
use crate::text::{
    blank, clean_optional, clean_spec, concat2, is_blank, lowercase_of, opt_view, owned, str_equal,
    to_lowercase, trim, trimmed,
};

verus! {

/// Whether some text of `seen` reads `t`.
pub open spec fn seen_text(seen: Seq<String>, t: Seq<char>) -> bool {
    exists|j: int| 0 <= j < seen.len() && (#[trigger] seen[j])@ == t
}

fn contains_text(seen: &Vec<String>, t: &str) -> (r: bool)
    ensures
        r == seen_text(seen@, t@),
{
    let mut j: usize = 0;
    while j < seen.len()
        invariant
            j <= seen@.len(),
            forall|q: int| 0 <= q < j ==> (#[trigger] seen@[q])@ != t@,
        decreases seen@.len() - j,
    {
        if str_equal(seen[j].as_str(), t) {
            assert(seen@[j as int]@ == t@);
            return true;
        }
        j += 1;
    }
    false
}

/// Why a custom field is refused after the fields before it, if it is.
pub open spec fn field_error(previous: Seq<CustomFieldDefinition>, f: CustomFieldDefinition) -> Option<
    Seq<char>,
> {
    if is_blank(f.id@) {
        Some("custom_field_id_required"@)
    } else if is_blank(f.key@) {
        Some("custom_field_key_required"@)
    } else if is_blank(f.label@) {
        Some("custom_field_label_required"@)
    } else if (exists|j: int| 0 <= j < previous.len() && trim((#[trigger] previous[j]).id@) == trim(f.id@))
        || (exists|j: int|
        0 <= j < previous.len() && lowercase_of(trim((#[trigger] previous[j]).key@))
            == lowercase_of(trim(f.key@))) {
        Some("custom_field_duplicate"@)
    } else if f.field_type == CustomFieldType::Choice && f.options@.len() == 0 {
        Some("custom_field_choice_options_required"@)
    } else if f.minimum matches Some(lo) && f.maximum matches Some(hi) && number_lt(hi, lo) {
        Some("custom_field_range_invalid"@)
    } else {
        None
    }
}

/// The error of the first refused field, if any.
pub open spec fn fields_error(fields: Seq<CustomFieldDefinition>) -> Option<Seq<char>>
    decreases fields.len(),
{
    if fields.len() == 0 {
        None
    } else {
        match fields_error(fields.drop_last()) {
            Some(e) => Some(e),
            None => field_error(fields.drop_last(), fields.last()),
        }
    }
}

/// Why a guide step is refused after the steps before it, if it is.
pub open spec fn step_error(previous: Seq<MaintenanceGuideStep>, s: MaintenanceGuideStep) -> Option<
    Seq<char>,
> {
    if is_blank(s.id@) {
        Some("guide_step_id_required"@)
    } else if is_blank(s.title@) {
        Some("guide_step_title_required"@)
    } else if is_blank(s.instructions@) {
        Some("guide_step_instructions_required"@)
    } else if exists|j: int| 0 <= j < previous.len() && trim((#[trigger] previous[j]).id@) == trim(s.id@) {
        Some("guide_step_duplicate"@)
    } else if s.step_type == GuideStepType::Choice && s.options@.len() == 0 {
        Some("guide_step_choice_options_required"@)
    } else if (s.step_type == GuideStepType::Numeric || s.step_type == GuideStepType::Measurement)
        && (s.expected_value matches Some(e) && e.minimum matches Some(lo) && e.maximum matches Some(
        hi,
    ) && number_lt(hi, lo)) {
        Some("guide_step_expected_range_invalid"@)
    } else {
        None
    }
}

/// The error of the first refused step, if any.
pub open spec fn steps_error(steps: Seq<MaintenanceGuideStep>) -> Option<Seq<char>>
    decreases steps.len(),
{
    if steps.len() == 0 {
        None
    } else {
        match steps_error(steps.drop_last()) {
            Some(e) => Some(e),
            None => step_error(steps.drop_last(), steps.last()),
        }
    }
}

/// Why a category's fields and guide are refused, if they are: fields first, then steps.
pub open spec fn definition_error(fields: Seq<CustomFieldDefinition>, guide: MaintenanceGuide) -> Option<
    Seq<char>,
> {
    match fields_error(fields) {
        Some(e) => Some(e),
        None => steps_error(guide.steps@),
    }
}

fn range_inverted(minimum: Option<NumberBits>, maximum: Option<NumberBits>) -> (r: bool)
    ensures
        r == (minimum matches Some(lo) && maximum matches Some(hi) && number_lt(hi, lo)),
{
    match (minimum, maximum) {
        (Some(lo), Some(hi)) => less_than(hi, lo),
        _ => false,
    }
}

proof fn lemma_fields_error_prefix(s: Seq<CustomFieldDefinition>, n: int)
    requires
        0 <= n <= s.len(),
        fields_error(s.take(n)) is Some,
    ensures
        fields_error(s) == fields_error(s.take(n)),
    decreases s.len() - n,
{
    if n < s.len() {
        assert(s.take(n + 1).drop_last() == s.take(n));
        lemma_fields_error_prefix(s, n + 1);
    } else {
        assert(s.take(n) == s);
    }
}

proof fn lemma_steps_error_prefix(s: Seq<MaintenanceGuideStep>, n: int)
    requires
        0 <= n <= s.len(),
        steps_error(s.take(n)) is Some,
    ensures
        steps_error(s) == steps_error(s.take(n)),
    decreases s.len() - n,
{
    if n < s.len() {
        assert(s.take(n + 1).drop_last() == s.take(n));
        lemma_steps_error_prefix(s, n + 1);
    } else {
        assert(s.take(n) == s);
    }
}

fn check_field(
    previous: Ghost<Seq<CustomFieldDefinition>>,
    ids: &Vec<String>,
    keys: &Vec<String>,
    f: &CustomFieldDefinition,
) -> (r: Result<(String, String), String>)
    requires
        ids@.len() == previous@.len(),
        keys@.len() == previous@.len(),
        forall|j: int| 0 <= j < ids@.len() ==> (#[trigger] ids@[j])@ == trim(previous@[j].id@),
        forall|j: int| 0 <= j < keys@.len() ==> (#[trigger] keys@[j])@ == lowercase_of(trim(previous@[j].key@)),
    ensures
        field_error(previous@, *f) matches Some(e) ==> (r matches Err(x) && x@ == e),
        field_error(previous@, *f) is None ==> (r matches Ok((id, key)) && id@ == trim(f.id@) && key@
            == lowercase_of(trim(f.key@))),
{
    let prev = previous;
    require_text(f.id.as_str(), "custom_field_id_required")?;
    require_text(f.key.as_str(), "custom_field_key_required")?;
    require_text(f.label.as_str(), "custom_field_label_required")?;
    let id = trimmed(f.id.as_str());
    let key_trimmed = trimmed(f.key.as_str());
    let key = to_lowercase(key_trimmed.as_str());
    let id_seen = contains_text(ids, id.as_str());
    let key_seen = contains_text(keys, key.as_str());
    proof {
        if id_seen {
            let j = choose|j: int| 0 <= j < ids@.len() && (#[trigger] ids@[j])@ == id@;
            assert(trim(prev@[j].id@) == trim(f.id@));
        } else {
            assert forall|j: int| 0 <= j < prev@.len() implies trim((#[trigger] prev@[j]).id@) != trim(
                f.id@,
            ) by {
                assert(ids@[j]@ == trim(prev@[j].id@));
            }
        }
        if key_seen {
            let j = choose|j: int| 0 <= j < keys@.len() && (#[trigger] keys@[j])@ == key@;
            assert(lowercase_of(trim(prev@[j].key@)) == lowercase_of(trim(f.key@)));
        } else {
            assert forall|j: int| 0 <= j < prev@.len() implies lowercase_of(
                trim((#[trigger] prev@[j]).key@),
            ) != lowercase_of(trim(f.key@)) by {
                assert(keys@[j]@ == lowercase_of(trim(prev@[j].key@)));
            }
        }
    }
    if id_seen || key_seen {
        return Err(owned("custom_field_duplicate"));
    }
    if f.field_type == CustomFieldType::Choice && f.options.len() == 0 {
        return Err(owned("custom_field_choice_options_required"));
    }
    if range_inverted(f.minimum, f.maximum) {
        return Err(owned("custom_field_range_invalid"));
    }
    Ok((id, key))
}

fn check_step(
    previous: Ghost<Seq<MaintenanceGuideStep>>,
    ids: &Vec<String>,
    s: &MaintenanceGuideStep,
) -> (r: Result<String, String>)
    requires
        ids@.len() == previous@.len(),
        forall|j: int| 0 <= j < ids@.len() ==> (#[trigger] ids@[j])@ == trim(previous@[j].id@),
    ensures
        step_error(previous@, *s) matches Some(e) ==> (r matches Err(x) && x@ == e),
        step_error(previous@, *s) is None ==> (r matches Ok(id) && id@ == trim(s.id@)),
{
    let prev = previous;
    require_text(s.id.as_str(), "guide_step_id_required")?;
    require_text(s.title.as_str(), "guide_step_title_required")?;
    require_text(s.instructions.as_str(), "guide_step_instructions_required")?;
    let id = trimmed(s.id.as_str());
    let seen = contains_text(ids, id.as_str());
    proof {
        if seen {
            let j = choose|j: int| 0 <= j < ids@.len() && (#[trigger] ids@[j])@ == id@;
            assert(trim(prev@[j].id@) == trim(s.id@));
        } else {
            assert forall|j: int| 0 <= j < prev@.len() implies trim((#[trigger] prev@[j]).id@) != trim(
                s.id@,
            ) by {
                assert(ids@[j]@ == trim(prev@[j].id@));
            }
        }
    }
    if seen {
        return Err(owned("guide_step_duplicate"));
    }
    if s.step_type == GuideStepType::Choice && s.options.len() == 0 {
        return Err(owned("guide_step_choice_options_required"));
    }
    if s.step_type == GuideStepType::Numeric || s.step_type == GuideStepType::Measurement {
        if let Some(e) = &s.expected_value {
            if range_inverted(e.minimum, e.maximum) {
                return Err(owned("guide_step_expected_range_invalid"));
            }
        }
    }
    Ok(id)
}

/// Checks a category's custom fields and guide steps.
pub fn validate_category_definition(
    fields: &Vec<CustomFieldDefinition>,
    guide: &MaintenanceGuide,
) -> (r: Result<(), String>)
    ensures
        definition_error(fields@, *guide) matches Some(e) ==> (r matches Err(x) && x@ == e),
        definition_error(fields@, *guide) is None ==> r is Ok,
{
    let mut ids: Vec<String> = Vec::new();
    let mut keys: Vec<String> = Vec::new();
    let mut i: usize = 0;
    while i < fields.len()
        invariant
            i <= fields@.len(),
            ids@.len() == i,
            keys@.len() == i,
            forall|j: int| 0 <= j < i ==> (#[trigger] ids@[j])@ == trim(fields@[j].id@),
            forall|j: int| 0 <= j < i ==> (#[trigger] keys@[j])@ == lowercase_of(trim(fields@[j].key@)),
            fields_error(fields@.take(i as int)) is None,
        decreases fields@.len() - i,
    {
        let ghost prev = fields@.take(i as int);
        proof {
            assert(fields@.take(i + 1).drop_last() == prev);
            assert(fields@.take(i + 1).last() == fields@[i as int]);
        }
        match check_field(Ghost(prev), &ids, &keys, &fields[i]) {
            Ok((id, key)) => {
                ids.push(id);
                keys.push(key);
            },
            Err(e) => {
                proof {
                    lemma_fields_error_prefix(fields@, i + 1);
                }
                return Err(e);
            },
        }
        i += 1;
    }
    assert(fields@.take(fields@.len() as int) == fields@);
    let mut step_ids: Vec<String> = Vec::new();
    let mut k: usize = 0;
    while k < guide.steps.len()
        invariant
            fields_error(fields@) is None,
            k <= guide.steps@.len(),
            step_ids@.len() == k,
            forall|j: int| 0 <= j < k ==> (#[trigger] step_ids@[j])@ == trim(guide.steps@[j].id@),
            steps_error(guide.steps@.take(k as int)) is None,
        decreases guide.steps@.len() - k,
    {
        let ghost prev = guide.steps@.take(k as int);
        proof {
            assert(guide.steps@.take(k + 1).drop_last() == prev);
            assert(guide.steps@.take(k + 1).last() == guide.steps@[k as int]);
        }
        match check_step(Ghost(prev), &step_ids, &guide.steps[k]) {
            Ok(id) => step_ids.push(id),
            Err(e) => {
                proof {
                    lemma_steps_error_prefix(guide.steps@, k + 1);
                }
                return Err(e);
            },
        }
        k += 1;
    }
    assert(guide.steps@.take(guide.steps@.len() as int) == guide.steps@);
    Ok(())
}

/// Two lists of texts read the same.
pub open spec fn texts_eq(a: Seq<String>, b: Seq<String>) -> bool {
    &&& a.len() == b.len()
    &&& forall|i: int| 0 <= i < a.len() ==> (#[trigger] a[i])@ == b[i]@
}

/// Two optional numbers are equal (both absent, or equal numbers).
pub open spec fn opt_number_eq(a: Option<NumberBits>, b: Option<NumberBits>) -> bool {
    match (a, b) {
        (Some(x), Some(y)) => number_eq(x, y),
        (None, None) => true,
        _ => false,
    }
}

/// Two expected values are equal field by field.
pub open spec fn expected_eq(a: Option<ExpectedValue>, b: Option<ExpectedValue>) -> bool {
    match (a, b) {
        (Some(x), Some(y)) => opt_view(x.unit) == opt_view(y.unit) && opt_number_eq(
            x.minimum,
            y.minimum,
        ) && opt_number_eq(x.maximum, y.maximum) && opt_view(x.target) == opt_view(y.target),
        (None, None) => true,
        _ => false,
    }
}

/// Two guide steps are equal field by field.
pub open spec fn step_eq(a: MaintenanceGuideStep, b: MaintenanceGuideStep) -> bool {
    &&& a.id@ == b.id@
    &&& a.title@ == b.title@
    &&& opt_view(a.description) == opt_view(b.description)
    &&& a.instructions@ == b.instructions@
    &&& a.step_type == b.step_type
    &&& a.required == b.required
    &&& texts_eq(a.reference_photo_ids@, b.reference_photo_ids@)
    &&& opt_view(a.safety_warning) == opt_view(b.safety_warning)
    &&& expected_eq(a.expected_value, b.expected_value)
    &&& texts_eq(a.options@, b.options@)
    &&& a.order == b.order
}

/// Two lists of guide steps are equal step by step.
pub open spec fn steps_eq(a: Seq<MaintenanceGuideStep>, b: Seq<MaintenanceGuideStep>) -> bool {
    &&& a.len() == b.len()
    &&& forall|i: int| 0 <= i < a.len() ==> step_eq(#[trigger] a[i], b[i])
}

fn texts_equal(a: &Vec<String>, b: &Vec<String>) -> (r: bool)
    ensures
        r == texts_eq(a@, b@),
{
    if a.len() != b.len() {
        return false;
    }
    let mut i: usize = 0;
    while i < a.len()
        invariant
            a@.len() == b@.len(),
            i <= a@.len(),
            forall|j: int| 0 <= j < i ==> (#[trigger] a@[j])@ == b@[j]@,
        decreases a@.len() - i,
    {
        if !str_equal(a[i].as_str(), b[i].as_str()) {
            return false;
        }
        i += 1;
    }
    true
}

fn optional_texts_equal(a: &Option<String>, b: &Option<String>) -> (r: bool)
    ensures
        r == (opt_view(*a) == opt_view(*b)),
{
    match (a, b) {
        (Some(x), Some(y)) => str_equal(x.as_str(), y.as_str()),
        (None, None) => true,
        _ => false,
    }
}

fn optional_numbers_equal(a: Option<NumberBits>, b: Option<NumberBits>) -> (r: bool)
    ensures
        r == opt_number_eq(a, b),
{
    match (a, b) {
        (Some(x), Some(y)) => equal_numbers(x, y),
        (None, None) => true,
        _ => false,
    }
}

fn expected_equal(a: &Option<ExpectedValue>, b: &Option<ExpectedValue>) -> (r: bool)
    ensures
        r == expected_eq(*a, *b),
{
    match (a, b) {
        (Some(x), Some(y)) => optional_texts_equal(&x.unit, &y.unit) && optional_numbers_equal(
            x.minimum,
            y.minimum,
        ) && optional_numbers_equal(x.maximum, y.maximum) && optional_texts_equal(
            &x.target,
            &y.target,
        ),
        (None, None) => true,
        _ => false,
    }
}

fn step_equal(a: &MaintenanceGuideStep, b: &MaintenanceGuideStep) -> (r: bool)
    ensures
        r == step_eq(*a, *b),
{
    str_equal(a.id.as_str(), b.id.as_str()) && str_equal(a.title.as_str(), b.title.as_str())
        && optional_texts_equal(&a.description, &b.description) && str_equal(
        a.instructions.as_str(),
        b.instructions.as_str(),
    ) && a.step_type == b.step_type && a.required == b.required && texts_equal(
        &a.reference_photo_ids,
        &b.reference_photo_ids,
    ) && optional_texts_equal(&a.safety_warning, &b.safety_warning) && expected_equal(
        &a.expected_value,
        &b.expected_value,
    ) && texts_equal(&a.options, &b.options) && a.order == b.order
}

/// Whether two lists of guide steps are equal.
pub fn steps_equal(a: &Vec<MaintenanceGuideStep>, b: &Vec<MaintenanceGuideStep>) -> (r: bool)
    ensures
        r == steps_eq(a@, b@),
{
    if a.len() != b.len() {
        return false;
    }
    let mut i: usize = 0;
    while i < a.len()
        invariant
            a@.len() == b@.len(),
            i <= a@.len(),
            forall|j: int| 0 <= j < i ==> step_eq(#[trigger] a@[j], b@[j]),
        decreases a@.len() - i,
    {
        if !step_equal(&a[i], &b[i]) {
            return false;
        }
        i += 1;
    }
    true
}

/// Another category has this normalized code.
pub open spec fn category_code_taken(
    categories: Seq<ItemCategory>,
    except_id: Option<Seq<char>>,
    code: Seq<char>,
) -> bool {
    exists|j: int|
        0 <= j < categories.len() && (#[trigger] categories[j]).code_normalized@ == code && match except_id {
            Some(id) => categories[j].id@ != id,
            None => true,
        }
}

fn code_in_use(categories: &Vec<ItemCategory>, except_id: Option<&str>, code: &str) -> (r: bool)
    ensures
        r == category_code_taken(
            categories@,
            match except_id {
                Some(id) => Some(id@),
                None => None,
            },
            code@,
        ),
{
    let ghost except = match except_id {
        Some(id) => Some(id@),
        None => None::<Seq<char>>,
    };
    let mut j: usize = 0;
    while j < categories.len()
        invariant
            j <= categories@.len(),
            except == match except_id {
                Some(id) => Some(id@),
                None => None::<Seq<char>>,
            },
            forall|k: int|
                0 <= k < j ==> !((#[trigger] categories@[k]).code_normalized@ == code@ && match except {
                    Some(id) => categories@[k].id@ != id,
                    None => true,
                }),
        decreases categories@.len() - j,
    {
        let c = &categories[j];
        let other = match except_id {
            Some(id) => !str_equal(c.id.as_str(), id),
            None => true,
        };
        if other && str_equal(c.code_normalized.as_str(), code) {
            assert(categories@[j as int].code_normalized@ == code@);
            return true;
        }
        j += 1;
    }
    false
}

/// Why creating a category fails, if it does.
pub open spec fn create_category_error(categories: Seq<ItemCategory>, role: Role, data: CommandData) -> Option<
    Seq<char>,
> {
    if !allowed(role, "item_category.manage"@) {
        Some("forbidden"@)
    } else {
        match data {
            CommandData::Category(input) => {
                let code = normalized_identifier(input.code@);
                if is_blank(code) {
                    Some("category_code_required"@)
                } else if is_blank(input.name@) {
                    Some("category_name_required"@)
                } else if category_code_taken(categories, None, code) {
                    Some("category_code_already_exists"@)
                } else {
                    definition_error(input.custom_field_definitions@, input.maintenance_guide)
                }
            },
            _ => Some("invalid_command_data"@),
        }
    }
}

/// Why updating a category fails, if it does.
pub open spec fn update_category_error(categories: Seq<ItemCategory>, role: Role, data: CommandData) -> Option<
    Seq<char>,
> {
    if !allowed(role, "item_category.manage"@) {
        Some("forbidden"@)
    } else {
        match data {
            CommandData::UpdateCategory(input) => {
                let code = normalized_identifier(input.category.code@);
                if is_blank(code) {
                    Some("category_code_required"@)
                } else if is_blank(input.category.name@) {
                    Some("category_name_required"@)
                } else if index_of_id(categories, input.id@) is None {
                    Some("category_not_found"@)
                } else if category_code_taken(categories, Some(input.id@), code) {
                    Some("category_code_already_exists"@)
                } else {
                    definition_error(
                        input.category.custom_field_definitions@,
                        input.category.maintenance_guide,
                    )
                }
            },
            _ => Some("invalid_command_data"@),
        }
    }
}

/// `c` holds the fields of `input` other than its guide and timestamps: the code
/// normalized, the texts cleaned, the custom fields in stable order.
pub open spec fn category_fields(c: ItemCategory, input: CategoryInput) -> bool {
    &&& c.code@ == normalized_identifier(input.code@)
    &&& c.code_normalized@ == normalized_identifier(input.code@)
    &&& c.name@ == trim(input.name@)
    &&& opt_view(c.description) == clean_spec(opt_view(input.description))
    &&& opt_view(c.icon) == clean_spec(opt_view(input.icon))
    &&& c.default_complexity_level == input.default_complexity_level
    &&& is_stable_sort(input.custom_field_definitions@, c.custom_field_definitions@)
    &&& c.recommended_parts == input.recommended_parts
    &&& c.active == input.active
}

impl ApplicationState {
    /// What `create_item_category` gives: the state `new_state` it leaves and its result `r`, from
    /// the state `old_state`.
    pub open spec fn create_item_category_outcome(
        old_state: ApplicationState,
        new_state: ApplicationState,
        command_id: &str,
        now: u64,
        actor: &Actor,
        data: CommandData,
        r: Result<Action, String>,
    ) -> bool {
        &&& (create_category_error(old_state.item_categories@, actor.role, data) matches Some(e) ==> (r matches Err(
                x,
            ) && x@ == e))
        &&& (r is Err ==> new_state == old_state)
        &&& (r matches Ok(a) ==> allowed(actor.role, a.permission@))
        &&& (create_category_error(old_state.item_categories@, actor.role, data) is None ==> (r matches Ok(a)
                && data matches CommandData::Category(input) && {
                let c = new_state.item_categories@.last();
                &&& new_state == ApplicationState {
                    item_categories: new_state.item_categories,
                    ..old_state
                }
                &&& new_state.item_categories@ == old_state.item_categories@.push(c)
                &&& c.id@ == "category-"@ + command_id@
                &&& category_fields(c, input)
                &&& c.maintenance_guide.version == 1
                &&& is_stable_sort(input.maintenance_guide.steps@, c.maintenance_guide.steps@)
                &&& c.created_at_ms == now
                &&& c.updated_at_ms == now
                &&& event_is(
                    a,
                    "item_category.manage"@,
                    "item_category.created"@,
                    "item_category"@,
                    c.id@,
                    "Item category created"@,
                )
                &&& a.before is None
                &&& a.after matches Some(AuditRecord::Category(x)) && c.same_as(&x)
            }))
    }

    /// An administrator creates a category; its guide starts at version 1 and its steps
    /// and fields are kept sorted by their order.
    pub fn create_item_category(
        &mut self,
        command_id: &str,
        now: u64,
        actor: &Actor,
        data: CommandData,
    ) -> (r: Result<Action, String>)
        ensures
            Self::create_item_category_outcome(*old(self), *final(self), command_id, now, actor, data, r),
    {
        require_permission(actor.role, "item_category.manage")?;
        let input = match data {
            CommandData::Category(input) => input,
            _ => return Err(invalid_data()),
        };
        let code = normalize_identifier(input.code.as_str());
        require_text(code.as_str(), "category_code_required")?;
        require_text(input.name.as_str(), "category_name_required")?;
        if code_in_use(&self.item_categories, None, code.as_str()) {
            return Err(owned("category_code_already_exists"));
        }
        validate_category_definition(&input.custom_field_definitions, &input.maintenance_guide)?;
        let id = concat2("category-", command_id);
        let CategoryInput {
            code: _,
            name,
            description,
            icon,
            default_complexity_level,
            maintenance_guide,
            custom_field_definitions,
            recommended_parts,
            active,
        } = input;
        let category = ItemCategory {
            id: id.clone(),
            code: code.clone(),
            code_normalized: code,
            name: trimmed(name.as_str()),
            description: clean_optional(description),
            icon: clean_optional(icon),
            default_complexity_level,
            maintenance_guide: MaintenanceGuide {
                version: 1,
                steps: stable_sort_by_key(maintenance_guide.steps),
            },
            custom_field_definitions: stable_sort_by_key(custom_field_definitions),
            recommended_parts,
            active,
            created_at_ms: now,
            updated_at_ms: now,
        };
        let after = category.deep_copy();
        self.item_categories.push(category);
        Ok(
            domain_action(
                "item_category.manage",
                "item_category.created",
                "item_category",
                id,
                None,
                Some(AuditRecord::Category(after)),
                "Item category created",
            ),
        )
    }

    /// What `update_item_category` gives: the state `new_state` it leaves and its result `r`, from
    /// the state `old_state`.
    pub open spec fn update_item_category_outcome(
        old_state: ApplicationState,
        new_state: ApplicationState,
        now: u64,
        actor: &Actor,
        data: CommandData,
        r: Result<Action, String>,
    ) -> bool {
        &&& (update_category_error(old_state.item_categories@, actor.role, data) matches Some(e) ==> (r matches Err(
                x,
            ) && x@ == e))
        &&& (r is Err ==> new_state == old_state)
        &&& (r matches Ok(a) ==> allowed(actor.role, a.permission@))
        &&& (update_category_error(old_state.item_categories@, actor.role, data) is None ==> (r matches Ok(a)
                && data matches CommandData::UpdateCategory(input) && {
                let i = index_of_id(old_state.item_categories@, input.id@)->0;
                let before = old_state.item_categories@[i];
                let after = new_state.item_categories@[i];
                let changed = !steps_eq(
                    before.maintenance_guide.steps@,
                    input.category.maintenance_guide.steps@,
                );
                &&& new_state.item_categories@ == old_state.item_categories@.update(i, after)
                &&& after.id == before.id
                &&& category_fields(after, input.category)
                &&& after.maintenance_guide.version == if changed {
                    if before.maintenance_guide.version == u32::MAX {
                        u32::MAX
                    } else {
                        (before.maintenance_guide.version + 1) as u32
                    }
                } else {
                    before.maintenance_guide.version
                }
                &&& is_stable_sort(
                    input.category.maintenance_guide.steps@,
                    after.maintenance_guide.steps@,
                )
                &&& after.created_at_ms == before.created_at_ms
                &&& after.updated_at_ms == now
                &&& changed ==> {
                    let ev = new_state.audit_events@.last();
                    &&& new_state == ApplicationState {
                        item_categories: new_state.item_categories,
                        audit_events: new_state.audit_events,
                        ..old_state
                    }
                    &&& new_state.audit_events@ == old_state.audit_events@.push(ev)
                    &&& supplemental_event_ok(
                        ev,
                        *actor,
                        now,
                        "maintenance_guide.updated"@,
                        "item_category"@,
                        input.id@,
                        ev.before_json,
                        ev.after_json,
                        "Maintenance guide updated"@,
                    )
                    &&& ev.before_json matches Some(AuditRecord::Guide(g))
                        && before.maintenance_guide.same_as(&g)
                    &&& ev.after_json matches Some(AuditRecord::Guide(g))
                        && after.maintenance_guide.same_as(&g)
                }
                &&& !changed ==> new_state == ApplicationState {
                    item_categories: new_state.item_categories,
                    ..old_state
                }
                &&& event_is(
                    a,
                    "item_category.manage"@,
                    "item_category.updated"@,
                    "item_category"@,
                    input.id@,
                    "Item category updated"@,
                )
                &&& a.before matches Some(AuditRecord::Category(x)) && before.same_as(&x)
                &&& a.after matches Some(AuditRecord::Category(x)) && after.same_as(&x)
            }))
    }

    /// An administrator replaces a category's fields and guide; the guide's version moves
    /// on when its steps change, and the change of guide is audited of its own.
    pub fn update_item_category(&mut self, now: u64, actor: &Actor, data: CommandData) -> (r: Result<
        Action,
        String,
    >)
        ensures
            Self::update_item_category_outcome(*old(self), *final(self), now, actor, data, r),
    {
        require_permission(actor.role, "item_category.manage")?;
        let input = match data {
            CommandData::UpdateCategory(input) => input,
            _ => return Err(invalid_data()),
        };
        let code = normalize_identifier(input.category.code.as_str());
        require_text(code.as_str(), "category_code_required")?;
        require_text(input.category.name.as_str(), "category_name_required")?;
        let i = match position_of_id(&self.item_categories, input.id.as_str()) {
            Some(i) => i,
            None => return Err(owned("category_not_found")),
        };
        if code_in_use(&self.item_categories, Some(input.id.as_str()), code.as_str()) {
            return Err(owned("category_code_already_exists"));
        }
        validate_category_definition(
            &input.category.custom_field_definitions,
            &input.category.maintenance_guide,
        )?;
        let before = self.item_categories[i].deep_copy();
        let previous_guide = self.item_categories[i].maintenance_guide.deep_copy();
        let changed = !steps_equal(
            &self.item_categories[i].maintenance_guide.steps,
            &input.category.maintenance_guide.steps,
        );
        let previous_version = self.item_categories[i].maintenance_guide.version;
        let version = if changed {
            previous_version.saturating_add(1)
        } else {
            previous_version
        };
        let id = input.id;
        let CategoryInput {
            code: _,
            name,
            description,
            icon,
            default_complexity_level,
            maintenance_guide,
            custom_field_definitions,
            recommended_parts,
            active,
        } = input.category;
        let ghost old_categories = self.item_categories@;
        let mut category = self.item_categories.remove(i);
        category.code = code.clone();
        category.code_normalized = code;
        category.name = trimmed(name.as_str());
        category.description = clean_optional(description);
        category.icon = clean_optional(icon);
        category.default_complexity_level = default_complexity_level;
        category.maintenance_guide = MaintenanceGuide {
            version,
            steps: stable_sort_by_key(maintenance_guide.steps),
        };
        category.custom_field_definitions = stable_sort_by_key(custom_field_definitions);
        category.recommended_parts = recommended_parts;
        category.active = active;
        category.updated_at_ms = now;
        let guide_after = category.maintenance_guide.deep_copy();
        let after = category.deep_copy();
        self.item_categories.insert(i, category);
        assert(self.item_categories@ =~= old_categories.update(i as int, self.item_categories@[i as int]));
        if changed {
            self.push_supplemental_audit(
                actor,
                now,
                "maintenance_guide.updated",
                "item_category",
                id.as_str(),
                Some(AuditRecord::Guide(previous_guide)),
                Some(AuditRecord::Guide(guide_after)),
                "Maintenance guide updated",
            );
        }
        Ok(
            domain_action(
                "item_category.manage",
                "item_category.updated",
                "item_category",
                id,
                Some(AuditRecord::Category(before)),
                Some(AuditRecord::Category(after)),
                "Item category updated",
            ),
        )
    }
}

} // verus!
