//! What a service order freezes of an item when it is created: the guide it follows (the
//! item's own or its category's) and the reference photos of that guide's steps; and the
//! operational form of a guide, framed by the standard safety and photo steps.
use vstd::prelude::*;

use crate::copies::{copy_vec, deep_copy_opt, same_opt, same_seq, DeepCopy, Duplicate};
use crate::model::{
    GuideStepType, ItemCategory, ItemCategorySnapshot, MachineItem, MachineItemSnapshot,
    MaintenanceGuide, MaintenanceGuideStep, PhotoAsset, PhotoOwnerType,
};
use crate::text::{owned, str_equal};

verus! {

/// The identifier of the lockout step that opens every operational guide.
pub const SAFETY_STEP_ID: &'static str = "proexel-safety-lockout";

/// The identifier of the photo step taken before the work.
pub const BEFORE_PHOTO_STEP_ID: &'static str = "proexel-visual-before";

/// The identifier of the photo step taken after the work.
pub const AFTER_PHOTO_STEP_ID: &'static str = "proexel-work-after";

/// One of the three standard step identifiers.
pub open spec fn is_standard_id(id: Seq<char>) -> bool {
    id == SAFETY_STEP_ID@ || id == BEFORE_PHOTO_STEP_ID@ || id == AFTER_PHOTO_STEP_ID@
}

/// The steps of a guide that are not standard steps, in order.
pub open spec fn custom_steps(steps: Seq<MaintenanceGuideStep>) -> Seq<MaintenanceGuideStep> {
    steps.filter(|s: MaintenanceGuideStep| !is_standard_id(s.id@))
}

/// `step` is the standard step with these texts, at position `order`.
pub open spec fn is_standard_step(
    step: MaintenanceGuideStep,
    id: Seq<char>,
    title: Seq<char>,
    instructions: Seq<char>,
    step_type: GuideStepType,
    warning: Option<Seq<char>>,
    order: u32,
) -> bool {
    &&& step.id@ == id
    &&& step.title@ == title
    &&& step.description is None
    &&& step.instructions@ == instructions
    &&& step.step_type == step_type
    &&& step.required
    &&& step.reference_photo_ids@.len() == 0
    &&& match warning {
        Some(w) => step.safety_warning matches Some(s) && s@ == w,
        None => step.safety_warning is None,
    }
    &&& step.expected_value is None
    &&& step.options@.len() == 0
    &&& step.order == order
}

/// `guide` is the operational guide of `source`: the lockout step, the photo before,
/// the source's own steps without any standard one, and the photo after, numbered from
/// zero; the version is the source's.
pub open spec fn is_operational_guide(source: MaintenanceGuide, guide: MaintenanceGuide) -> bool {
    let custom = custom_steps(source.steps@);
    let n = guide.steps@.len();
    &&& guide.version == source.version
    &&& n == custom.len() + 3
    &&& is_standard_step(
        guide.steps@[0],
        SAFETY_STEP_ID@,
        "Secure the machine"@,
        "Apply lockout and tagout, isolate every energy source and confirm zero energy before intervention."@,
        GuideStepType::Confirmation,
        Some("Do not proceed until the machine is safely isolated."@),
        0,
    )
    &&& is_standard_step(
        guide.steps@[1],
        BEFORE_PHOTO_STEP_ID@,
        "Visual inspection and initial photo"@,
        "Inspect the component and take a clear photo showing its condition before maintenance."@,
        GuideStepType::Photo,
        None,
        1,
    )
    &&& is_standard_step(
        guide.steps@[n - 1],
        AFTER_PHOTO_STEP_ID@,
        "Photo of completed work"@,
        "Take a clear photo of the completed maintenance before concluding this component."@,
        GuideStepType::Photo,
        None,
        (n - 1) as u32,
    )
    &&& forall|k: int|
        0 <= k < custom.len() ==> {
            &&& (#[trigger] custom[k]).same_as(
                &MaintenanceGuideStep { order: custom[k].order, ..guide.steps@[k + 2] },
            )
            &&& guide.steps@[k + 2].order == (k + 2) as u32
        }
}

fn standard_step(
    id: &str,
    title: &str,
    instructions: &str,
    step_type: GuideStepType,
    safety_warning: Option<&str>,
    order: u32,
) -> (r: MaintenanceGuideStep)
    ensures
        is_standard_step(
            r,
            id@,
            title@,
            instructions@,
            step_type,
            match safety_warning {
                Some(w) => Some(w@),
                None => None,
            },
            order,
        ),
{
    MaintenanceGuideStep {
        id: owned(id),
        title: owned(title),
        description: None,
        instructions: owned(instructions),
        step_type,
        required: true,
        reference_photo_ids: Vec::new(),
        safety_warning: match safety_warning {
            Some(w) => Some(owned(w)),
            None => None,
        },
        expected_value: None,
        options: Vec::new(),
        order,
    }
}

/// Whether an identifier is one of the standard step identifiers.
fn standard_id(id: &str) -> (r: bool)
    ensures
        r == is_standard_id(id@),
{
    str_equal(id, SAFETY_STEP_ID) || str_equal(id, BEFORE_PHOTO_STEP_ID) || str_equal(
        id,
        AFTER_PHOTO_STEP_ID,
    )
}

/// The guide a technician follows for `source`: the standard lockout and photo steps
/// around the source's own steps, renumbered in order.
pub fn operational_guide(source: &MaintenanceGuide) -> (r: MaintenanceGuide)
    ensures
        is_operational_guide(*source, r),
{
    let ghost pred = |s: MaintenanceGuideStep| !is_standard_id(s.id@);
    let mut steps: Vec<MaintenanceGuideStep> = Vec::new();
    steps.push(
        standard_step(
            SAFETY_STEP_ID,
            "Secure the machine",
            "Apply lockout and tagout, isolate every energy source and confirm zero energy before intervention.",
            GuideStepType::Confirmation,
            Some("Do not proceed until the machine is safely isolated."),
            0,
        ),
    );
    steps.push(
        standard_step(
            BEFORE_PHOTO_STEP_ID,
            "Visual inspection and initial photo",
            "Inspect the component and take a clear photo showing its condition before maintenance.",
            GuideStepType::Photo,
            None,
            1,
        ),
    );
    let n = source.steps.len();
    let mut i: usize = 0;
    while i < n
        invariant
            n == source.steps@.len(),
            i <= n,
            pred == (|s: MaintenanceGuideStep| !is_standard_id(s.id@)),
            steps@.len() == source.steps@.take(i as int).filter(pred).len() + 2,
            steps@.len() <= i + 2,
            is_standard_step(
                steps@[0],
                SAFETY_STEP_ID@,
                "Secure the machine"@,
                "Apply lockout and tagout, isolate every energy source and confirm zero energy before intervention."@,
                GuideStepType::Confirmation,
                Some("Do not proceed until the machine is safely isolated."@),
                0,
            ),
            is_standard_step(
                steps@[1],
                BEFORE_PHOTO_STEP_ID@,
                "Visual inspection and initial photo"@,
                "Inspect the component and take a clear photo showing its condition before maintenance."@,
                GuideStepType::Photo,
                None,
                1,
            ),
            forall|k: int|
                0 <= k < source.steps@.take(i as int).filter(pred).len() ==> {
                    &&& (#[trigger] source.steps@.take(i as int).filter(pred)[k]).same_as(
                        &MaintenanceGuideStep {
                            order: source.steps@.take(i as int).filter(pred)[k].order,
                            ..steps@[k + 2]
                        },
                    )
                    &&& steps@[k + 2].order == (k + 2) as u32
                },
        decreases n - i,
    {
        let ghost before = source.steps@.take(i as int).filter(pred);
        proof {
            let t = source.steps@.take(i + 1);
            assert(t.drop_last() == source.steps@.take(i as int));
            assert(t.last() == source.steps@[i as int]);
            reveal(Seq::filter);
        }
        let step = &source.steps[i];
        if !standard_id(step.id.as_str()) {
            let order = #[verifier::truncate] (steps.len() as u32);
            let copy = step.deep_copy();
            let mut copy = copy;
            copy.order = order;
            steps.push(copy);
            proof {
                assert(source.steps@.take(i + 1).filter(pred) == before.push(source.steps@[i as int]));
            }
        } else {
            proof {
                assert(source.steps@.take(i + 1).filter(pred) == before);
            }
        }
        i += 1;
    }
    proof {
        assert(source.steps@.take(n as int) == source.steps@);
    }
    let last = #[verifier::truncate] (steps.len() as u32);
    steps.push(
        standard_step(
            AFTER_PHOTO_STEP_ID,
            "Photo of completed work",
            "Take a clear photo of the completed maintenance before concluding this component.",
            GuideStepType::Photo,
            None,
            last,
        ),
    );
    MaintenanceGuide { version: source.version, steps }
}

/// Whether a step of `guide` names `photo` as one of its reference photos.
pub open spec fn is_guide_reference(guide: MaintenanceGuide, photo: PhotoAsset) -> bool {
    &&& photo.owner_type == PhotoOwnerType::GuideStep
    &&& exists|k: int, j: int|
        0 <= k < guide.steps@.len() && 0 <= j < guide.steps@[k].reference_photo_ids@.len()
            && (#[trigger] guide.steps@[k]).id@ == photo.owner_id@
            && (#[trigger] guide.steps@[k].reference_photo_ids@[j])@ == photo.id@
}

fn guide_references(guide: &MaintenanceGuide, photo: &PhotoAsset) -> (r: bool)
    ensures
        r == is_guide_reference(*guide, *photo),
{
    if photo.owner_type != PhotoOwnerType::GuideStep {
        return false;
    }
    let mut k: usize = 0;
    while k < guide.steps.len()
        invariant
            k <= guide.steps@.len(),
            photo.owner_type == PhotoOwnerType::GuideStep,
            forall|a: int, j: int|
                0 <= a < k && 0 <= j < guide.steps@[a].reference_photo_ids@.len() ==> !(
                (#[trigger] guide.steps@[a]).id@ == photo.owner_id@ && (
                #[trigger] guide.steps@[a].reference_photo_ids@[j])@ == photo.id@),
        decreases guide.steps@.len() - k,
    {
        let step = &guide.steps[k];
        if str_equal(step.id.as_str(), photo.owner_id.as_str()) {
            let mut j: usize = 0;
            while j < step.reference_photo_ids.len()
                invariant
                    k < guide.steps@.len(),
                    *step == guide.steps@[k as int],
                    step.id@ == photo.owner_id@,
                    photo.owner_type == PhotoOwnerType::GuideStep,
                    j <= step.reference_photo_ids@.len(),
                    forall|b: int|
                        0 <= b < j ==> (#[trigger] step.reference_photo_ids@[b])@ != photo.id@,
                decreases step.reference_photo_ids@.len() - j,
            {
                if str_equal(step.reference_photo_ids[j].as_str(), photo.id.as_str()) {
                    proof {
                        let a = k as int;
                        let b = j as int;
                        assert(guide.steps@[a].reference_photo_ids@[b]@ == photo.id@);
                        assert(guide.steps@[a].id@ == photo.owner_id@);
                    }
                    return true;
                }
                j += 1;
            }
        }
        k += 1;
    }
    false
}

/// The reference photos of `guide`'s steps among `photos`, in the order of `photos`.
pub open spec fn guide_reference_photos(guide: MaintenanceGuide, photos: Seq<PhotoAsset>) -> Seq<
    PhotoAsset,
> {
    photos.filter(|p: PhotoAsset| is_guide_reference(guide, p))
}

fn reference_photos(guide: &MaintenanceGuide, photos: &Vec<PhotoAsset>) -> (r: Vec<PhotoAsset>)
    ensures
        r@ == guide_reference_photos(*guide, photos@),
{
    let ghost pred = |p: PhotoAsset| is_guide_reference(*guide, p);
    let mut out: Vec<PhotoAsset> = Vec::new();
    let mut i: usize = 0;
    while i < photos.len()
        invariant
            i <= photos@.len(),
            pred == (|p: PhotoAsset| is_guide_reference(*guide, p)),
            out@ == photos@.take(i as int).filter(pred),
        decreases photos@.len() - i,
    {
        proof {
            let t = photos@.take(i + 1);
            assert(t.drop_last() == photos@.take(i as int));
            assert(t.last() == photos@[i as int]);
            reveal(Seq::filter);
        }
        if guide_references(guide, &photos[i]) {
            out.push(photos[i].duplicate());
        }
        i += 1;
    }
    assert(photos@.take(photos@.len() as int) == photos@);
    out
}

/// The guide an item follows: its own when it has one, else its category's.
pub open spec fn source_guide(item: MachineItem, category: ItemCategory) -> MaintenanceGuide {
    match item.maintenance_guide_override {
        Some(g) => g,
        None => category.maintenance_guide,
    }
}

/// `snap` freezes `item` of `category`, with the guide the item follows and that guide's
/// reference photos among `photos`.
pub open spec fn is_item_snapshot(
    snap: MachineItemSnapshot,
    item: MachineItem,
    category: ItemCategory,
    photos: Seq<PhotoAsset>,
) -> bool {
    let guide = snap.category.maintenance_guide;
    &&& snap.id == item.id
    &&& snap.machine_id == item.machine_id
    &&& snap.name == item.name
    &&& snap.code == item.code
    &&& snap.complexity_level == item.complexity_level
    &&& same_opt(item.installed_component, snap.installed_component)
    &&& snap.category.id == category.id
    &&& snap.category.code == category.code
    &&& snap.category.name == category.name
    &&& source_guide(item, category).same_as(&guide)
    &&& snap.category.guide_version == guide.version
    &&& snap.category.guide_reference_photos@ == guide_reference_photos(guide, photos)
}

/// Freezes `item` of `category` for a service order.
pub fn item_snapshot(item: &MachineItem, category: &ItemCategory, photos: &Vec<PhotoAsset>) -> (r:
    MachineItemSnapshot)
    ensures
        is_item_snapshot(r, *item, *category, photos@),
{
    let source = match &item.maintenance_guide_override {
        Some(g) => g,
        None => &category.maintenance_guide,
    };
    let guide = source.deep_copy();
    let reference = reference_photos(&guide, photos);
    MachineItemSnapshot {
        id: item.id.clone(),
        machine_id: item.machine_id.clone(),
        category: ItemCategorySnapshot {
            id: category.id.clone(),
            code: category.code.clone(),
            name: category.name.clone(),
            guide_version: guide.version,
            maintenance_guide: guide,
            guide_reference_photos: reference,
        },
        name: item.name.clone(),
        code: item.code.clone(),
        complexity_level: item.complexity_level,
        installed_component: deep_copy_opt(&item.installed_component),
    }
}

} // verus!
