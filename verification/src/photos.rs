//! Photos: who may attach one to what, adding one, and deleting one with every
//! reference to it.
use vstd::prelude::*;

use crate::commands::{AddPhoto, CommandData};
use crate::copies::Duplicate;
use crate::lookup::{index_of_id, position_of_id};
use crate::model::{
    AuditRecord, ItemCategory, Machine, MaintenanceGuideStep, PhotoAsset, PhotoOwnerType,
    PhotoPurpose, ServiceOrder,
};
use crate::orders::{ensure_actor_may_act_as, may_act_as};
use crate::permissions::{allowed, require_permission};
use crate::state::{domain_action, event_is, invalid_data, require_text, Action, Actor, ApplicationState};
use crate::text::{clean_optional, clean_spec, concat2, is_blank, opt_view, owned, str_equal, trim, trimmed};

verus! {

/// Some record of the owner's kind has identifier `owner_id`.
pub open spec fn owner_exists(s: ApplicationState, owner_type: PhotoOwnerType, owner_id: Seq<char>) -> bool {
    match owner_type {
        PhotoOwnerType::Machine => exists|k: int|
            0 <= k < s.machines@.len() && (#[trigger] s.machines@[k]).id@ == owner_id,
        PhotoOwnerType::MachineItem => exists|k: int|
            0 <= k < s.machine_items@.len() && (#[trigger] s.machine_items@[k]).id@ == owner_id,
        PhotoOwnerType::GuideStep => exists|c: int, k: int|
            0 <= c < s.item_categories@.len() && 0 <= k < s.item_categories@[c].maintenance_guide.steps@.len()
                && (#[trigger] s.item_categories@[c].maintenance_guide.steps@[k]).id@ == owner_id,
        PhotoOwnerType::Inspection => exists|k: int|
            0 <= k < s.inspections@.len() && (#[trigger] s.inspections@[k]).id@ == owner_id,
        PhotoOwnerType::Replacement => exists|k: int|
            0 <= k < s.machine_item_replacements@.len() && (
            #[trigger] s.machine_item_replacements@[k]).id@ == owner_id,
    }
}

/// The permission a photo of this owner needs, or why there is none: the owner must
/// exist, and only the operator of an inspection (or a supervisor) may handle its photos.
pub open spec fn photo_permission_of(
    s: ApplicationState,
    owner_type: PhotoOwnerType,
    owner_id: Seq<char>,
    actor: Actor,
) -> Result<Seq<char>, Seq<char>> {
    if !owner_exists(s, owner_type, owner_id) {
        Err("photo_owner_not_found"@)
    } else if owner_type == PhotoOwnerType::Inspection {
        match index_of_id(s.inspections@, owner_id) {
            None => Err("inspection_not_found"@),
            Some(k) => if may_act_as(actor, s.inspections@[k].operator_id@) {
                Ok("inspection.execute"@)
            } else {
                Err("operator_identity_mismatch"@)
            },
        }
    } else {
        Ok("photo.manage_reference"@)
    }
}

impl ApplicationState {
    fn owner_present(&self, owner_type: PhotoOwnerType, owner_id: &str) -> (r: bool)
        ensures
            r == owner_exists(*self, owner_type, owner_id@),
    {
        match owner_type {
            PhotoOwnerType::Machine => crate::lookup::contains_id(&self.machines, owner_id),
            PhotoOwnerType::MachineItem => crate::lookup::contains_id(&self.machine_items, owner_id),
            PhotoOwnerType::Inspection => crate::lookup::contains_id(&self.inspections, owner_id),
            PhotoOwnerType::Replacement => {
                let mut k: usize = 0;
                while k < self.machine_item_replacements.len()
                    invariant
                        owner_type == PhotoOwnerType::Replacement,
                        k <= self.machine_item_replacements@.len(),
                        forall|j: int|
                            0 <= j < k ==> (#[trigger] self.machine_item_replacements@[j]).id@ != owner_id@,
                    decreases self.machine_item_replacements@.len() - k,
                {
                    if str_equal(self.machine_item_replacements[k].id.as_str(), owner_id) {
                        assert(self.machine_item_replacements@[k as int].id@ == owner_id@);
                        return true;
                    }
                    k += 1;
                }
                false
            },
            PhotoOwnerType::GuideStep => {
                let mut c: usize = 0;
                while c < self.item_categories.len()
                    invariant
                        owner_type == PhotoOwnerType::GuideStep,
                        c <= self.item_categories@.len(),
                        forall|a: int, k: int|
                            0 <= a < c && 0 <= k < self.item_categories@[a].maintenance_guide.steps@.len()
                                ==> (#[trigger] self.item_categories@[a].maintenance_guide.steps@[k]).id@
                                != owner_id@,
                    decreases self.item_categories@.len() - c,
                {
                    let steps = &self.item_categories[c].maintenance_guide.steps;
                    let mut k: usize = 0;
                    while k < steps.len()
                        invariant
                            owner_type == PhotoOwnerType::GuideStep,
                            c < self.item_categories@.len(),
                            *steps == self.item_categories@[c as int].maintenance_guide.steps,
                            k <= steps@.len(),
                            forall|b: int| 0 <= b < k ==> (#[trigger] steps@[b]).id@ != owner_id@,
                        decreases steps@.len() - k,
                    {
                        if str_equal(steps[k].id.as_str(), owner_id) {
                            proof {
                                let a = c as int;
                                let b = k as int;
                                assert(self.item_categories@[a].maintenance_guide.steps@[b].id@ == owner_id@);
                                assert(exists|x: int, y: int|
                                    0 <= x < self.item_categories@.len() && 0 <= y
                                        < self.item_categories@[x].maintenance_guide.steps@.len()
                                        && (#[trigger] self.item_categories@[x].maintenance_guide.steps@[y]).id@
                                        == owner_id@);
                            }
                            return true;
                        }
                        k += 1;
                    }
                    c += 1;
                }
                false
            },
        }
    }

    /// The permission a photo of this owner needs.
    pub fn photo_permission(&self, owner_type: PhotoOwnerType, owner_id: &str, actor: &Actor) -> (r:
        Result<&'static str, String>)
        ensures
            match photo_permission_of(*self, owner_type, owner_id@, *actor) {
                Ok(p) => r matches Ok(x) && x@ == p,
                Err(e) => r matches Err(x) && x@ == e,
            },
    {
        if !self.owner_present(owner_type, owner_id) {
            return Err(owned("photo_owner_not_found"));
        }
        if owner_type == PhotoOwnerType::Inspection {
            let k = match position_of_id(&self.inspections, owner_id) {
                Some(k) => k,
                None => return Err(owned("inspection_not_found")),
            };
            ensure_actor_may_act_as(actor, self.inspections[k].operator_id.as_str())?;
            Ok("inspection.execute")
        } else {
            Ok("photo.manage_reference")
        }
    }
}

/// Some photo already has this stored reference.
pub open spec fn blob_taken(photos: Seq<PhotoAsset>, blob_ref: Seq<char>) -> bool {
    exists|k: int| 0 <= k < photos.len() && (#[trigger] photos[k]).blob_ref@ == blob_ref
}

/// Why adding a photo fails, if it does; the data and the owner are checked before the
/// permission.
pub open spec fn add_photo_error(s: ApplicationState, actor: Actor, data: CommandData) -> Option<Seq<char>> {
    match data {
        CommandData::AddPhoto(input) => match photo_permission_of(
            s,
            input.owner_type,
            input.owner_id@,
            actor,
        ) {
            Err(e) => Some(e),
            Ok(p) => if !allowed(actor.role, p) {
                Some("forbidden"@)
            } else if is_blank(input.blob_ref@) {
                Some("photo_ref_required"@)
            } else if blob_taken(s.photos@, input.blob_ref@) {
                Some("photo_already_exists"@)
            } else {
                None
            },
        },
        _ => Some("invalid_command_data"@),
    }
}

/// The category holds a step with identifier `step_id`.
pub open spec fn has_step(c: ItemCategory, step_id: Seq<char>) -> bool {
    exists|k: int|
        0 <= k < c.maintenance_guide.steps@.len() && (#[trigger] c.maintenance_guide.steps@[k]).id@
            == step_id
}

/// The test "holds a step with identifier `step_id`".
pub open spec fn has_step_is(step_id: Seq<char>) -> spec_fn(ItemCategory) -> bool {
    |c: ItemCategory| has_step(c, step_id)
}

/// The test "step with identifier `step_id`".
pub open spec fn step_is(step_id: Seq<char>) -> spec_fn(MaintenanceGuideStep) -> bool {
    |s: MaintenanceGuideStep| s.id@ == step_id
}

/// Whether some text of the list reads `t`.
pub open spec fn lists_text(v: Seq<String>, t: Seq<char>) -> bool {
    exists|j: int| 0 <= j < v.len() && (#[trigger] v[j])@ == t
}

/// The categories after photo `photo_id` becomes a reference of step `step_id`: the first
/// category with that step lists it on its first such step (its guide's version moving
/// on when it was not listed yet) and is marked updated.
pub open spec fn categories_with_reference(
    categories: Seq<ItemCategory>,
    step_id: Seq<char>,
    photo_id: String,
    now: u64,
    after: Seq<ItemCategory>,
) -> bool {
    match crate::lookup::first_index(categories, has_step_is(step_id)) {
        None => after == categories,
        Some(c) => {
            let before = categories[c];
            let k = crate::lookup::first_index(before.maintenance_guide.steps@, step_is(step_id))->0;
            let step = before.maintenance_guide.steps@[k];
            let cat = after[c];
            &&& after == categories.update(c, cat)
            &&& if lists_text(step.reference_photo_ids@, photo_id@) {
                cat == ItemCategory { updated_at_ms: now, ..before }
            } else {
                let new_step = cat.maintenance_guide.steps@[k];
                &&& cat == ItemCategory {
                    maintenance_guide: cat.maintenance_guide,
                    updated_at_ms: now,
                    ..before
                }
                &&& cat.maintenance_guide.version == if before.maintenance_guide.version == u32::MAX {
                    u32::MAX
                } else {
                    (before.maintenance_guide.version + 1) as u32
                }
                &&& cat.maintenance_guide.steps@ == before.maintenance_guide.steps@.update(k, new_step)
                &&& new_step == MaintenanceGuideStep {
                    reference_photo_ids: new_step.reference_photo_ids,
                    ..step
                }
                &&& new_step.reference_photo_ids@ == step.reference_photo_ids@.push(photo_id)
            }
        },
    }
}

/// The machines after photo `photo_id` of `owner_id` becomes its main photo.
pub open spec fn machines_with_main_photo(
    machines: Seq<Machine>,
    owner_id: Seq<char>,
    photo_id: String,
    now: u64,
) -> Seq<Machine> {
    match index_of_id(machines, owner_id) {
        Some(k) => machines.update(
            k,
            Machine { main_photo_id: Some(photo_id), updated_at_ms: now, ..machines[k] },
        ),
        None => machines,
    }
}

fn blob_in_use(photos: &Vec<PhotoAsset>, blob_ref: &str) -> (r: bool)
    ensures
        r == blob_taken(photos@, blob_ref@),
{
    let mut k: usize = 0;
    while k < photos.len()
        invariant
            k <= photos@.len(),
            forall|j: int| 0 <= j < k ==> (#[trigger] photos@[j]).blob_ref@ != blob_ref@,
        decreases photos@.len() - k,
    {
        if str_equal(photos[k].blob_ref.as_str(), blob_ref) {
            assert(photos@[k as int].blob_ref@ == blob_ref@);
            return true;
        }
        k += 1;
    }
    false
}

fn lists(v: &Vec<String>, t: &str) -> (r: bool)
    ensures
        r == lists_text(v@, t@),
{
    let mut j: usize = 0;
    while j < v.len()
        invariant
            j <= v@.len(),
            forall|q: int| 0 <= q < j ==> (#[trigger] v@[q])@ != t@,
        decreases v@.len() - j,
    {
        if str_equal(v[j].as_str(), t) {
            assert(v@[j as int]@ == t@);
            return true;
        }
        j += 1;
    }
    false
}

fn first_step_position(steps: &Vec<MaintenanceGuideStep>, step_id: &str) -> (r: Option<usize>)
    ensures
        match r {
            Some(k) => crate::lookup::first_index(steps@, step_is(step_id@)) == Some(k as int) && k
                < steps@.len(),
            None => crate::lookup::first_index(steps@, step_is(step_id@)) is None,
        },
{
    let ghost p = step_is(step_id@);
    let mut k: usize = 0;
    while k < steps.len()
        invariant
            k <= steps@.len(),
            p == step_is(step_id@),
            forall|j: int| 0 <= j < k ==> !p(#[trigger] steps@[j]),
        decreases steps@.len() - k,
    {
        if str_equal(steps[k].id.as_str(), step_id) {
            proof {
                assert(crate::lookup::is_first(steps@, p, k as int));
                crate::lookup::lemma_first_index(steps@, p);
            }
            return Some(k);
        }
        k += 1;
    }
    proof {
        crate::lookup::lemma_first_index(steps@, p);
    }
    None
}

impl ApplicationState {
    fn reference_on_step(&mut self, step_id: &str, photo_id: &String, now: u64)
        ensures
            *final(self) == (ApplicationState { item_categories: final(self).item_categories, ..*old(self) }),
            categories_with_reference(
                old(self).item_categories@,
                step_id@,
                *photo_id,
                now,
                final(self).item_categories@,
            ),
    {
        let ghost p = has_step_is(step_id@);
        let mut c: usize = 0;
        while c < self.item_categories.len()
            invariant
                c <= self.item_categories@.len(),
                *self == *old(self),
                p == has_step_is(step_id@),
                forall|j: int| 0 <= j < c ==> !p(#[trigger] self.item_categories@[j]),
            decreases self.item_categories@.len() - c,
        {
            if let Some(k) = first_step_position(
                &self.item_categories[c].maintenance_guide.steps,
                step_id,
            ) {
                proof {
                    crate::lookup::lemma_first_index(
                        self.item_categories@[c as int].maintenance_guide.steps@,
                        step_is(step_id@),
                    );
                    assert(p(self.item_categories@[c as int]));
                    assert(crate::lookup::is_first(self.item_categories@, p, c as int));
                    crate::lookup::lemma_first_index(self.item_categories@, p);
                }
                let ghost old_categories = self.item_categories@;
                let mut category = self.item_categories.remove(c);
                let listed = lists(&category.maintenance_guide.steps[k].reference_photo_ids, photo_id.as_str());
                if !listed {
                    let ghost old_steps = category.maintenance_guide.steps@;
                    let mut step = category.maintenance_guide.steps.remove(k);
                    step.reference_photo_ids.push(photo_id.clone());
                    category.maintenance_guide.steps.insert(k, step);
                    assert(category.maintenance_guide.steps@ =~= old_steps.update(
                        k as int,
                        category.maintenance_guide.steps@[k as int],
                    ));
                    category.maintenance_guide.version = category.maintenance_guide.version.saturating_add(1);
                }
                category.updated_at_ms = now;
                self.item_categories.insert(c, category);
                assert(self.item_categories@ =~= old_categories.update(
                    c as int,
                    self.item_categories@[c as int],
                ));
                return;
            } else {
                proof {
                    assert(!p(self.item_categories@[c as int])) by {
                        if p(self.item_categories@[c as int]) {
                            let k0 = choose|k: int|
                                0 <= k < self.item_categories@[c as int].maintenance_guide.steps@.len()
                                    && (#[trigger] self.item_categories@[c as int].maintenance_guide.steps@[k]).id@
                                    == step_id@;
                            crate::lookup::lemma_first_index_exists(
                                self.item_categories@[c as int].maintenance_guide.steps@,
                                step_is(step_id@),
                                k0,
                            );
                        }
                    }
                }
            }
            c += 1;
        }
        proof {
            crate::lookup::lemma_first_index(self.item_categories@, p);
        }
    }

    /// What `add_photo` gives: the state `new_state` it leaves and its result `r`, from
    /// the state `old_state`.
    pub open spec fn add_photo_outcome(
        old_state: ApplicationState,
        new_state: ApplicationState,
        command_id: &str,
        now: u64,
        actor: &Actor,
        data: &CommandData,
        r: Result<Action, String>,
    ) -> bool {
        &&& (add_photo_error(old_state, *actor, *data) matches Some(e) ==> (r matches Err(x) && x@ == e))
        &&& (r is Err ==> new_state == old_state)
        &&& (r matches Ok(a) ==> allowed(actor.role, a.permission@))
        &&& (add_photo_error(old_state, *actor, *data) is None ==> (r matches Ok(a)
                && data matches CommandData::AddPhoto(input) && {
                let photo = new_state.photos@.last();
                let permission = photo_permission_of(
                    old_state,
                    input.owner_type,
                    input.owner_id@,
                    *actor,
                )->Ok_0;
                &&& new_state == ApplicationState {
                    photos: new_state.photos,
                    machines: new_state.machines,
                    item_categories: new_state.item_categories,
                    ..old_state
                }
                &&& new_state.photos@ == old_state.photos@.push(photo)
                &&& photo.id@ == "photo-"@ + command_id@
                &&& photo.owner_type == input.owner_type
                &&& photo.owner_id == input.owner_id
                &&& photo.purpose == input.purpose
                &&& photo.blob_ref@ == trim(input.blob_ref@)
                &&& opt_view(photo.description) == clean_spec(opt_view(input.description))
                &&& photo.created_by == actor.name
                &&& photo.created_at_ms == now
                &&& new_state.machines@ == if input.owner_type == PhotoOwnerType::Machine
                    && input.purpose == PhotoPurpose::Main {
                    machines_with_main_photo(old_state.machines@, input.owner_id@, photo.id, now)
                } else {
                    old_state.machines@
                }
                &&& if input.owner_type == PhotoOwnerType::GuideStep {
                    categories_with_reference(
                        old_state.item_categories@,
                        input.owner_id@,
                        photo.id,
                        now,
                        new_state.item_categories@,
                    )
                } else {
                    new_state.item_categories@ == old_state.item_categories@
                }
                &&& event_is(a, permission, "photo.added"@, "photo"@, photo.id@, "Photo added"@)
                &&& a.before is None
                &&& a.after == Some(AuditRecord::Photo(photo))
            }))
    }

    /// Adds a photo to a machine, item, guide step, inspection or replacement. A machine's
    /// main photo becomes the machine's; a guide step's photo becomes one of the step's
    /// reference photos.
    pub fn add_photo(&mut self, command_id: &str, now: u64, actor: &Actor, data: &CommandData) -> (r:
        Result<Action, String>)
        ensures
            Self::add_photo_outcome(*old(self), *final(self), command_id, now, actor, data, r),
    {
        let input = match data {
            CommandData::AddPhoto(input) => input,
            _ => return Err(invalid_data()),
        };
        let permission = self.photo_permission(input.owner_type, input.owner_id.as_str(), actor)?;
        require_permission(actor.role, permission)?;
        require_text(input.blob_ref.as_str(), "photo_ref_required")?;
        if blob_in_use(&self.photos, input.blob_ref.as_str()) {
            return Err(owned("photo_already_exists"));
        }
        let id = concat2("photo-", command_id);
        let photo = PhotoAsset {
            id: id.clone(),
            owner_type: input.owner_type,
            owner_id: input.owner_id.clone(),
            purpose: input.purpose,
            blob_ref: trimmed(input.blob_ref.as_str()),
            description: clean_optional(crate::model::copy_text(&input.description)),
            created_by: actor.name.clone(),
            created_at_ms: now,
        };
        let after = photo.duplicate();
        if input.owner_type == PhotoOwnerType::Machine && input.purpose == PhotoPurpose::Main {
            if let Some(m) = position_of_id(&self.machines, input.owner_id.as_str()) {
                let ghost old_machines = self.machines@;
                let mut machine = self.machines.remove(m);
                machine.main_photo_id = Some(id.clone());
                machine.updated_at_ms = now;
                self.machines.insert(m, machine);
                assert(self.machines@ =~= old_machines.update(m as int, self.machines@[m as int]));
            }
        }
        if input.owner_type == PhotoOwnerType::GuideStep {
            self.reference_on_step(input.owner_id.as_str(), &id, now);
        }
        self.photos.push(photo);
        Ok(
            domain_action(
                permission,
                "photo.added",
                "photo",
                id,
                None,
                Some(AuditRecord::Photo(after)),
                "Photo added",
            ),
        )
    }
}

/// A frozen snapshot of some order's task shows the photo.
pub open spec fn photo_in_snapshots(orders: Seq<ServiceOrder>, photo_id: Seq<char>) -> bool {
    exists|o: int, t: int, p: int|
        0 <= o < orders.len() && 0 <= t < orders[o].tasks@.len() && 0 <= p
            < orders[o].tasks@[t].item_snapshot.category.guide_reference_photos@.len() && (
        #[trigger] orders[o].tasks@[t].item_snapshot.category.guide_reference_photos@[p]).id@
            == photo_id
}

/// Why deleting a photo fails, if it does.
pub open spec fn delete_photo_error(s: ApplicationState, actor: Actor, data: CommandData) -> Option<
    Seq<char>,
> {
    match data {
        CommandData::DeletePhoto(input) => match index_of_id(s.photos@, input.id@) {
            None => Some("photo_not_found"@),
            Some(i) => {
                let photo = s.photos@[i];
                if input.blob_ref@ != photo.blob_ref@ {
                    Some("photo_ref_mismatch"@)
                } else {
                    match photo_permission_of(s, photo.owner_type, photo.owner_id@, actor) {
                        Err(e) => Some(e),
                        Ok(p) => if !allowed(actor.role, p) {
                            Some("forbidden"@)
                        } else if photo_in_snapshots(s.service_orders@, photo.id@) {
                            Some("photo_in_use_by_service_order"@)
                        } else {
                            None
                        },
                    }
                }
            },
        },
        _ => Some("invalid_command_data"@),
    }
}

/// A machine without `photo_id` as its main photo.
pub open spec fn without_main_photo(m: Machine, photo_id: Seq<char>) -> Machine {
    if m.main_photo_id matches Some(x) && x@ == photo_id {
        Machine { main_photo_id: None, ..m }
    } else {
        m
    }
}

/// The test "is not `photo_id`".
pub open spec fn not_photo(photo_id: Seq<char>) -> spec_fn(String) -> bool {
    |t: String| t@ != photo_id
}

/// Some step of the guide lists the photo.
pub open spec fn guide_lists(steps: Seq<MaintenanceGuideStep>, photo_id: Seq<char>) -> bool {
    exists|k: int| 0 <= k < steps.len() && lists_text((#[trigger] steps[k]).reference_photo_ids@, photo_id)
}

/// `after` is `before` with `photo_id` taken off every step; the guide's version moves
/// on when some step listed it.
pub open spec fn category_without_photo(before: ItemCategory, after: ItemCategory, photo_id: Seq<char>) -> bool {
    let steps = before.maintenance_guide.steps@;
    let new_steps = after.maintenance_guide.steps@;
    &&& after == ItemCategory { maintenance_guide: after.maintenance_guide, ..before }
    &&& after.maintenance_guide.version == if guide_lists(steps, photo_id) {
        if before.maintenance_guide.version == u32::MAX {
            u32::MAX
        } else {
            (before.maintenance_guide.version + 1) as u32
        }
    } else {
        before.maintenance_guide.version
    }
    &&& new_steps.len() == steps.len()
    &&& forall|k: int|
        0 <= k < steps.len() ==> {
            &&& #[trigger] new_steps[k] == MaintenanceGuideStep {
                reference_photo_ids: new_steps[k].reference_photo_ids,
                ..steps[k]
            }
            &&& new_steps[k].reference_photo_ids@ == steps[k].reference_photo_ids@.filter(
                not_photo(photo_id),
            )
        }
}

fn strip_photo(v: Vec<String>, photo_id: &str) -> (r: (Vec<String>, bool))
    ensures
        r.0@ == v@.filter(not_photo(photo_id@)),
        r.1 == lists_text(v@, photo_id@),
{
    let ghost p = not_photo(photo_id@);
    let ghost input = v@;
    let n = v.len();
    let mut rest = v;
    let mut out: Vec<String> = Vec::new();
    let mut removed = false;
    let mut i: usize = 0;
    while rest.len() > 0
        invariant
            i + rest@.len() == input.len(),
            input.len() == n,
            rest@ == input.skip(i as int),
            p == not_photo(photo_id@),
            out@ == input.take(i as int).filter(p),
            removed == lists_text(input.take(i as int), photo_id@),
        decreases rest@.len(),
    {
        let x = rest.remove(0);
        proof {
            assert(x == input[i as int]);
            let t = input.take(i + 1);
            assert(t.drop_last() == input.take(i as int));
            assert(t.last() == x);
            reveal(Seq::filter);
            assert(rest@ == input.skip(i + 1));
        }
        if str_equal(x.as_str(), photo_id) {
            removed = true;
            proof {
                assert(input.take(i + 1)[i as int]@ == photo_id@);
            }
        } else {
            proof {
                if lists_text(input.take(i + 1), photo_id@) {
                    let j = choose|j: int| 0 <= j < i + 1 && (#[trigger] input.take(i + 1)[j])@ == photo_id@;
                    assert(input.take(i as int)[j]@ == photo_id@);
                }
                if lists_text(input.take(i as int), photo_id@) {
                    let j = choose|j: int| 0 <= j < i && (#[trigger] input.take(i as int)[j])@ == photo_id@;
                    assert(input.take(i + 1)[j]@ == photo_id@);
                }
            }
            out.push(x);
        }
        i += 1;
    }
    proof {
        assert(input.take(i as int) == input);
    }
    (out, removed)
}

fn strip_photo_from_category(category: ItemCategory, photo_id: &str) -> (r: ItemCategory)
    ensures
        category_without_photo(category, r, photo_id@),
{
    let ghost before = category;
    let mut category = category;
    let mut changed = false;
    let n = category.maintenance_guide.steps.len();
    let mut k: usize = 0;
    while k < n
        invariant
            n == before.maintenance_guide.steps@.len(),
            k <= n,
            category == (ItemCategory { maintenance_guide: category.maintenance_guide, ..before }),
            category.maintenance_guide.version == before.maintenance_guide.version,
            category.maintenance_guide.steps@.len() == n,
            changed == guide_lists(before.maintenance_guide.steps@.take(k as int), photo_id@),
            forall|j: int|
                k <= j < n ==> #[trigger] category.maintenance_guide.steps@[j]
                    == before.maintenance_guide.steps@[j],
            forall|j: int|
                0 <= j < k ==> {
                    &&& #[trigger] category.maintenance_guide.steps@[j] == MaintenanceGuideStep {
                        reference_photo_ids: category.maintenance_guide.steps@[j].reference_photo_ids,
                        ..before.maintenance_guide.steps@[j]
                    }
                    &&& category.maintenance_guide.steps@[j].reference_photo_ids@
                        == before.maintenance_guide.steps@[j].reference_photo_ids@.filter(
                        not_photo(photo_id@),
                    )
                },
        decreases n - k,
    {
        let ghost old_steps = category.maintenance_guide.steps@;
        let mut step = category.maintenance_guide.steps.remove(k);
        let ids = step.reference_photo_ids;
        let (kept, removed) = strip_photo(ids, photo_id);
        step.reference_photo_ids = kept;
        category.maintenance_guide.steps.insert(k, step);
        proof {
            assert(category.maintenance_guide.steps@ =~= old_steps.update(
                k as int,
                category.maintenance_guide.steps@[k as int],
            ));
            let all = before.maintenance_guide.steps@;
            if guide_lists(all.take(k + 1), photo_id@) && !removed {
                let j = choose|j: int|
                    0 <= j < k + 1 && lists_text((#[trigger] all.take(k + 1)[j]).reference_photo_ids@, photo_id@);
                assert(all.take(k as int)[j] == all[j]);
            }
            if guide_lists(all.take(k as int), photo_id@) {
                let j = choose|j: int|
                    0 <= j < k && lists_text((#[trigger] all.take(k as int)[j]).reference_photo_ids@, photo_id@);
                assert(all.take(k + 1)[j] == all[j]);
            }
            if removed {
                assert(all.take(k + 1)[k as int] == all[k as int]);
            }
        }
        changed = changed || removed;
        k += 1;
    }
    if changed {
        category.maintenance_guide.version = category.maintenance_guide.version.saturating_add(1);
    }
    proof {
        assert(before.maintenance_guide.steps@.take(n as int) == before.maintenance_guide.steps@);
    }
    category
}

fn in_snapshots(orders: &Vec<ServiceOrder>, photo_id: &str) -> (r: bool)
    ensures
        r == photo_in_snapshots(orders@, photo_id@),
{
    let mut o: usize = 0;
    while o < orders.len()
        invariant
            o <= orders@.len(),
            forall|a: int, t: int, p: int|
                0 <= a < o && 0 <= t < orders@[a].tasks@.len() && 0 <= p
                    < orders@[a].tasks@[t].item_snapshot.category.guide_reference_photos@.len() ==> (
                #[trigger] orders@[a].tasks@[t].item_snapshot.category.guide_reference_photos@[p]).id@
                    != photo_id@,
        decreases orders@.len() - o,
    {
        let tasks = &orders[o].tasks;
        let mut t: usize = 0;
        while t < tasks.len()
            invariant
                o < orders@.len(),
                *tasks == orders@[o as int].tasks,
                t <= tasks@.len(),
                forall|b: int, p: int|
                    0 <= b < t && 0 <= p < tasks@[b].item_snapshot.category.guide_reference_photos@.len()
                        ==> (#[trigger] tasks@[b].item_snapshot.category.guide_reference_photos@[p]).id@
                        != photo_id@,
            decreases tasks@.len() - t,
        {
            let photos = &tasks[t].item_snapshot.category.guide_reference_photos;
            let mut p: usize = 0;
            while p < photos.len()
                invariant
                    o < orders@.len(),
                    *tasks == orders@[o as int].tasks,
                    t < tasks@.len(),
                    *photos == tasks@[t as int].item_snapshot.category.guide_reference_photos,
                    p <= photos@.len(),
                    forall|q: int| 0 <= q < p ==> (#[trigger] photos@[q]).id@ != photo_id@,
                decreases photos@.len() - p,
            {
                if str_equal(photos[p].id.as_str(), photo_id) {
                    proof {
                        let (a, b, c) = (o as int, t as int, p as int);
                        assert(orders@[a].tasks@[b].item_snapshot.category.guide_reference_photos@[c].id@
                            == photo_id@);
                    }
                    return true;
                }
                p += 1;
            }
            t += 1;
        }
        o += 1;
    }
    false
}

impl ApplicationState {
    /// What `delete_photo` gives: the state `new_state` it leaves and its result `r`, from
    /// the state `old_state`.
    pub open spec fn delete_photo_outcome(
        old_state: ApplicationState,
        new_state: ApplicationState,
        actor: &Actor,
        data: &CommandData,
        r: Result<Action, String>,
    ) -> bool {
        &&& (delete_photo_error(old_state, *actor, *data) matches Some(e) ==> (r matches Err(x) && x@
                == e))
        &&& (r is Err ==> new_state == old_state)
        &&& (r matches Ok(a) ==> allowed(actor.role, a.permission@))
        &&& (delete_photo_error(old_state, *actor, *data) is None ==> (r matches Ok(a)
                && data matches CommandData::DeletePhoto(input) && {
                let i = index_of_id(old_state.photos@, input.id@)->0;
                let photo = old_state.photos@[i];
                let permission = photo_permission_of(
                    old_state,
                    photo.owner_type,
                    photo.owner_id@,
                    *actor,
                )->Ok_0;
                &&& new_state == ApplicationState {
                    photos: new_state.photos,
                    machines: new_state.machines,
                    item_categories: new_state.item_categories,
                    ..old_state
                }
                &&& new_state.photos@ == old_state.photos@.remove(i)
                &&& new_state.machines@.len() == old_state.machines@.len()
                &&& forall|k: int|
                    0 <= k < old_state.machines@.len() ==> #[trigger] new_state.machines@[k]
                        == without_main_photo(old_state.machines@[k], photo.id@)
                &&& new_state.item_categories@.len() == old_state.item_categories@.len()
                &&& forall|c: int|
                    0 <= c < old_state.item_categories@.len() ==> category_without_photo(
                        old_state.item_categories@[c],
                        #[trigger] new_state.item_categories@[c],
                        photo.id@,
                    )
                &&& event_is(a, permission, "photo.removed"@, "photo"@, photo.id@, "Photo removed"@)
                &&& a.before == Some(AuditRecord::Photo(photo))
                &&& a.after is None
            }))
    }

    /// Deletes a photo that no order's snapshot shows, after its stored reference is
    /// confirmed: machines stop using it as their main photo and guide steps stop listing
    /// it, a guide's version moving on when one of its steps listed it.
    pub fn delete_photo(&mut self, actor: &Actor, data: &CommandData) -> (r: Result<Action, String>)
        ensures
            Self::delete_photo_outcome(*old(self), *final(self), actor, data, r),
    {
        let input = match data {
            CommandData::DeletePhoto(input) => input,
            _ => return Err(invalid_data()),
        };
        let i = match position_of_id(&self.photos, input.id.as_str()) {
            Some(i) => i,
            None => return Err(owned("photo_not_found")),
        };
        if !str_equal(input.blob_ref.as_str(), self.photos[i].blob_ref.as_str()) {
            return Err(owned("photo_ref_mismatch"));
        }
        let permission = self.photo_permission(
            self.photos[i].owner_type,
            self.photos[i].owner_id.as_str(),
            actor,
        )?;
        require_permission(actor.role, permission)?;
        if in_snapshots(&self.service_orders, self.photos[i].id.as_str()) {
            return Err(owned("photo_in_use_by_service_order"));
        }
        let photo = self.photos.remove(i);
        let ghost start = *self;
        let mut m: usize = 0;
        while m < self.machines.len()
            invariant
                m <= self.machines@.len(),
                self.machines@.len() == start.machines@.len(),
                *self == (ApplicationState { machines: self.machines, ..start }),
                forall|k: int| 0 <= k < m ==> #[trigger] self.machines@[k] == without_main_photo(start.machines@[k], photo.id@),
                forall|k: int| m <= k < self.machines@.len() ==> #[trigger] self.machines@[k] == start.machines@[k],
            decreases self.machines@.len() - m,
        {
            let uses = match &self.machines[m].main_photo_id {
                Some(x) => str_equal(x.as_str(), photo.id.as_str()),
                None => false,
            };
            if uses {
                let ghost old_machines = self.machines@;
                let mut machine = self.machines.remove(m);
                machine.main_photo_id = None;
                self.machines.insert(m, machine);
                assert(self.machines@ =~= old_machines.update(m as int, self.machines@[m as int]));
            }
            m += 1;
        }
        let ghost middle = *self;
        let mut c: usize = 0;
        while c < self.item_categories.len()
            invariant
                c <= self.item_categories@.len(),
                self.item_categories@.len() == middle.item_categories@.len(),
                *self == (ApplicationState { item_categories: self.item_categories, ..middle }),
                forall|k: int|
                    0 <= k < c ==> category_without_photo(
                        middle.item_categories@[k],
                        #[trigger] self.item_categories@[k],
                        photo.id@,
                    ),
                forall|k: int|
                    c <= k < self.item_categories@.len() ==> #[trigger] self.item_categories@[k]
                        == middle.item_categories@[k],
            decreases self.item_categories@.len() - c,
        {
            let ghost old_categories = self.item_categories@;
            let category = self.item_categories.remove(c);
            let stripped = strip_photo_from_category(category, photo.id.as_str());
            self.item_categories.insert(c, stripped);
            assert(self.item_categories@ =~= old_categories.update(c as int, self.item_categories@[c as int]));
            c += 1;
        }
        let id = photo.id.clone();
        Ok(
            domain_action(
                permission,
                "photo.removed",
                "photo",
                id,
                Some(AuditRecord::Photo(photo)),
                None,
                "Photo removed",
            ),
        )
    }
}

} // verus!
