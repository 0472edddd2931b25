//! Document-level laws of the codec, stated and proved once and for all
//! inputs.
//!
//! The decoders' own contracts pin each result exactly; the laws here
//! state the schema-level guarantees that relate several of them: a
//! well-formed input always decodes, an unrecognized field is always
//! reported, and the capability codec's two tag tables correspond
//! variant by variant with order preserved.

use vstd::pervasive::arbitrary;
use vstd::prelude::*;

use crate::decode::{
    application_fault, application_list_spec, application_scan, application_spec,
    applications_fault, applications_scan, applications_spec, cap_name_fault, cap_name_scan,
    cap_name_spec, capabilities_list_spec, capability_item_spec, default_tile_fault,
    default_tile_scan, default_tile_spec, dependencies_fault, dependencies_scan,
    dependencies_spec, identity_fault, identity_scan, identity_spec, list_v, lkp, lock_screen_fault,
    lock_screen_scan, lock_screen_spec, manifest_spec, package_fault, package_scan,
    properties_fault, properties_scan, properties_spec, resource_fault, resource_list_spec,
    resource_scan, resource_spec, resources_fault, resources_scan, resources_spec,
    show_name_on_tiles_fault, show_name_on_tiles_scan, show_name_on_tiles_spec, show_on_fault,
    show_on_list_spec, show_on_scan, show_on_spec, splash_screen_fault, splash_screen_scan,
    splash_screen_spec, target_device_family_fault, target_device_family_list_spec,
    target_device_family_scan, target_device_family_spec, visual_elements_fault,
    visual_elements_scan, visual_elements_spec,
};
use crate::encode::{attr, capability_xml};
use crate::error::ErrorSpec;
use crate::input::{Field, Value};
use crate::model::{AppxManifestV, Capability, CapabilityV};

verus! {

/// The field list inside a record value.
pub open spec fn rec_fields(v: Value) -> Seq<Field> {
    match v {
        Value::Record(fs) => fs@,
        _ => arbitrary(),
    }
}

/// The elements inside a list value.
pub open spec fn list_elems(v: Value) -> Seq<Value> {
    match v {
        Value::List(vs) => vs@,
        _ => arbitrary(),
    }
}

proof fn identity_scan_none_of_faultless(fields: Seq<Field>)
    requires
        forall|k: int| 0 <= k < fields.len() ==> #[trigger] identity_fault(fields[k]) is None,
    ensures
        identity_scan(fields) is None,
    decreases fields.len(),
{
    if fields.len() > 0 {
        assert(identity_fault(fields[0]) is None);
        let rest = fields.drop_first();
        assert forall|k: int| 0 <= k < rest.len() implies #[trigger] identity_fault(rest[k]) is None by {
            assert(rest[k] == fields[k + 1]);
        }
        identity_scan_none_of_faultless(rest);
    }
}

proof fn properties_scan_none_of_faultless(fields: Seq<Field>)
    requires
        forall|k: int| 0 <= k < fields.len() ==> #[trigger] properties_fault(fields[k]) is None,
    ensures
        properties_scan(fields) is None,
    decreases fields.len(),
{
    if fields.len() > 0 {
        assert(properties_fault(fields[0]) is None);
        let rest = fields.drop_first();
        assert forall|k: int| 0 <= k < rest.len() implies #[trigger] properties_fault(rest[k]) is None by {
            assert(rest[k] == fields[k + 1]);
        }
        properties_scan_none_of_faultless(rest);
    }
}

proof fn resource_scan_none_of_faultless(fields: Seq<Field>)
    requires
        forall|k: int| 0 <= k < fields.len() ==> #[trigger] resource_fault(fields[k]) is None,
    ensures
        resource_scan(fields) is None,
    decreases fields.len(),
{
    if fields.len() > 0 {
        assert(resource_fault(fields[0]) is None);
        let rest = fields.drop_first();
        assert forall|k: int| 0 <= k < rest.len() implies #[trigger] resource_fault(rest[k]) is None by {
            assert(rest[k] == fields[k + 1]);
        }
        resource_scan_none_of_faultless(rest);
    }
}

proof fn target_device_family_scan_none_of_faultless(fields: Seq<Field>)
    requires
        forall|k: int| 0 <= k < fields.len() ==> #[trigger] target_device_family_fault(fields[k]) is None,
    ensures
        target_device_family_scan(fields) is None,
    decreases fields.len(),
{
    if fields.len() > 0 {
        assert(target_device_family_fault(fields[0]) is None);
        let rest = fields.drop_first();
        assert forall|k: int| 0 <= k < rest.len() implies #[trigger] target_device_family_fault(rest[k]) is None by {
            assert(rest[k] == fields[k + 1]);
        }
        target_device_family_scan_none_of_faultless(rest);
    }
}

proof fn splash_screen_scan_none_of_faultless(fields: Seq<Field>)
    requires
        forall|k: int| 0 <= k < fields.len() ==> #[trigger] splash_screen_fault(fields[k]) is None,
    ensures
        splash_screen_scan(fields) is None,
    decreases fields.len(),
{
    if fields.len() > 0 {
        assert(splash_screen_fault(fields[0]) is None);
        let rest = fields.drop_first();
        assert forall|k: int| 0 <= k < rest.len() implies #[trigger] splash_screen_fault(rest[k]) is None by {
            assert(rest[k] == fields[k + 1]);
        }
        splash_screen_scan_none_of_faultless(rest);
    }
}

proof fn lock_screen_scan_none_of_faultless(fields: Seq<Field>)
    requires
        forall|k: int| 0 <= k < fields.len() ==> #[trigger] lock_screen_fault(fields[k]) is None,
    ensures
        lock_screen_scan(fields) is None,
    decreases fields.len(),
{
    if fields.len() > 0 {
        assert(lock_screen_fault(fields[0]) is None);
        let rest = fields.drop_first();
        assert forall|k: int| 0 <= k < rest.len() implies #[trigger] lock_screen_fault(rest[k]) is None by {
            assert(rest[k] == fields[k + 1]);
        }
        lock_screen_scan_none_of_faultless(rest);
    }
}

proof fn show_on_scan_none_of_faultless(fields: Seq<Field>)
    requires
        forall|k: int| 0 <= k < fields.len() ==> #[trigger] show_on_fault(fields[k]) is None,
    ensures
        show_on_scan(fields) is None,
    decreases fields.len(),
{
    if fields.len() > 0 {
        assert(show_on_fault(fields[0]) is None);
        let rest = fields.drop_first();
        assert forall|k: int| 0 <= k < rest.len() implies #[trigger] show_on_fault(rest[k]) is None by {
            assert(rest[k] == fields[k + 1]);
        }
        show_on_scan_none_of_faultless(rest);
    }
}

proof fn show_name_on_tiles_scan_none_of_faultless(fields: Seq<Field>)
    requires
        forall|k: int| 0 <= k < fields.len() ==> #[trigger] show_name_on_tiles_fault(fields[k]) is None,
    ensures
        show_name_on_tiles_scan(fields) is None,
    decreases fields.len(),
{
    if fields.len() > 0 {
        assert(show_name_on_tiles_fault(fields[0]) is None);
        let rest = fields.drop_first();
        assert forall|k: int| 0 <= k < rest.len() implies #[trigger] show_name_on_tiles_fault(rest[k]) is None by {
            assert(rest[k] == fields[k + 1]);
        }
        show_name_on_tiles_scan_none_of_faultless(rest);
    }
}

proof fn default_tile_scan_none_of_faultless(fields: Seq<Field>)
    requires
        forall|k: int| 0 <= k < fields.len() ==> #[trigger] default_tile_fault(fields[k]) is None,
    ensures
        default_tile_scan(fields) is None,
    decreases fields.len(),
{
    if fields.len() > 0 {
        assert(default_tile_fault(fields[0]) is None);
        let rest = fields.drop_first();
        assert forall|k: int| 0 <= k < rest.len() implies #[trigger] default_tile_fault(rest[k]) is None by {
            assert(rest[k] == fields[k + 1]);
        }
        default_tile_scan_none_of_faultless(rest);
    }
}

proof fn visual_elements_scan_none_of_faultless(fields: Seq<Field>)
    requires
        forall|k: int| 0 <= k < fields.len() ==> #[trigger] visual_elements_fault(fields[k]) is None,
    ensures
        visual_elements_scan(fields) is None,
    decreases fields.len(),
{
    if fields.len() > 0 {
        assert(visual_elements_fault(fields[0]) is None);
        let rest = fields.drop_first();
        assert forall|k: int| 0 <= k < rest.len() implies #[trigger] visual_elements_fault(rest[k]) is None by {
            assert(rest[k] == fields[k + 1]);
        }
        visual_elements_scan_none_of_faultless(rest);
    }
}

proof fn application_scan_none_of_faultless(fields: Seq<Field>)
    requires
        forall|k: int| 0 <= k < fields.len() ==> #[trigger] application_fault(fields[k]) is None,
    ensures
        application_scan(fields) is None,
    decreases fields.len(),
{
    if fields.len() > 0 {
        assert(application_fault(fields[0]) is None);
        let rest = fields.drop_first();
        assert forall|k: int| 0 <= k < rest.len() implies #[trigger] application_fault(rest[k]) is None by {
            assert(rest[k] == fields[k + 1]);
        }
        application_scan_none_of_faultless(rest);
    }
}

proof fn applications_scan_none_of_faultless(fields: Seq<Field>)
    requires
        forall|k: int| 0 <= k < fields.len() ==> #[trigger] applications_fault(fields[k]) is None,
    ensures
        applications_scan(fields) is None,
    decreases fields.len(),
{
    if fields.len() > 0 {
        assert(applications_fault(fields[0]) is None);
        let rest = fields.drop_first();
        assert forall|k: int| 0 <= k < rest.len() implies #[trigger] applications_fault(rest[k]) is None by {
            assert(rest[k] == fields[k + 1]);
        }
        applications_scan_none_of_faultless(rest);
    }
}

proof fn resources_scan_none_of_faultless(fields: Seq<Field>)
    requires
        forall|k: int| 0 <= k < fields.len() ==> #[trigger] resources_fault(fields[k]) is None,
    ensures
        resources_scan(fields) is None,
    decreases fields.len(),
{
    if fields.len() > 0 {
        assert(resources_fault(fields[0]) is None);
        let rest = fields.drop_first();
        assert forall|k: int| 0 <= k < rest.len() implies #[trigger] resources_fault(rest[k]) is None by {
            assert(rest[k] == fields[k + 1]);
        }
        resources_scan_none_of_faultless(rest);
    }
}

proof fn dependencies_scan_none_of_faultless(fields: Seq<Field>)
    requires
        forall|k: int| 0 <= k < fields.len() ==> #[trigger] dependencies_fault(fields[k]) is None,
    ensures
        dependencies_scan(fields) is None,
    decreases fields.len(),
{
    if fields.len() > 0 {
        assert(dependencies_fault(fields[0]) is None);
        let rest = fields.drop_first();
        assert forall|k: int| 0 <= k < rest.len() implies #[trigger] dependencies_fault(rest[k]) is None by {
            assert(rest[k] == fields[k + 1]);
        }
        dependencies_scan_none_of_faultless(rest);
    }
}

proof fn package_scan_none_of_faultless(fields: Seq<Field>)
    requires
        forall|k: int| 0 <= k < fields.len() ==> #[trigger] package_fault(fields[k]) is None,
    ensures
        package_scan(fields) is None,
    decreases fields.len(),
{
    if fields.len() > 0 {
        assert(package_fault(fields[0]) is None);
        let rest = fields.drop_first();
        assert forall|k: int| 0 <= k < rest.len() implies #[trigger] package_fault(rest[k]) is None by {
            assert(rest[k] == fields[k + 1]);
        }
        package_scan_none_of_faultless(rest);
    }
}

proof fn cap_name_scan_none_of_faultless(fields: Seq<Field>, c: Seq<char>)
    requires
        forall|k: int| 0 <= k < fields.len() ==> #[trigger] cap_name_fault(fields[k], c) is None,
    ensures
        cap_name_scan(fields, c) is None,
    decreases fields.len(),
{
    if fields.len() > 0 {
        assert(cap_name_fault(fields[0], c) is None);
        let rest = fields.drop_first();
        assert forall|k: int| 0 <= k < rest.len() implies #[trigger] cap_name_fault(
            rest[k],
            c,
        ) is None by {
            assert(rest[k] == fields[k + 1]);
        }
        cap_name_scan_none_of_faultless(rest, c);
    }
}

proof fn package_faultless_of_scan_none(fields: Seq<Field>)
    requires
        package_scan(fields) is None,
    ensures
        forall|k: int| 0 <= k < fields.len() ==> #[trigger] package_fault(fields[k]) is None,
    decreases fields.len(),
{
    if fields.len() > 0 {
        let rest = fields.drop_first();
        package_faultless_of_scan_none(rest);
        assert forall|k: int| 0 <= k < fields.len() implies #[trigger] package_fault(
            fields[k],
        ) is None by {
            if k > 0 {
                assert(fields[k] == rest[k - 1]);
            }
        }
    }
}

proof fn package_scan_stops_at(fields: Seq<Field>, i: int)
    requires
        0 <= i < fields.len(),
        forall|k: int| 0 <= k < i ==> #[trigger] package_fault(fields[k]) is None,
        package_fault(fields[i]) is Some,
    ensures
        package_scan(fields) == package_fault(fields[i]),
    decreases i,
{
    let rest = fields.drop_first();
    if i == 0 {
        assert(package_scan(fields) == package_fault(fields[0]));
    } else {
        assert(package_fault(fields[0]) is None);
        assert forall|k: int| 0 <= k < i - 1 implies #[trigger] package_fault(rest[k]) is None by {
            assert(rest[k] == fields[k + 1]);
        }
        assert(rest[i - 1] == fields[i]);
        package_scan_stops_at(rest, i - 1);
    }
}

proof fn properties_scan_stops_at(fields: Seq<Field>, i: int)
    requires
        0 <= i < fields.len(),
        forall|k: int| 0 <= k < i ==> #[trigger] properties_fault(fields[k]) is None,
        properties_fault(fields[i]) is Some,
    ensures
        properties_scan(fields) == properties_fault(fields[i]),
    decreases i,
{
    let rest = fields.drop_first();
    if i == 0 {
        assert(properties_scan(fields) == properties_fault(fields[0]));
    } else {
        assert(properties_fault(fields[0]) is None);
        assert forall|k: int| 0 <= k < i - 1 implies #[trigger] properties_fault(
            rest[k],
        ) is None by {
            assert(rest[k] == fields[k + 1]);
        }
        assert(rest[i - 1] == fields[i]);
        properties_scan_stops_at(rest, i - 1);
    }
}

/// A well-formed `identity` input: recognized, well-shaped fields only,
/// with every required field present.
pub open spec fn wf_identity_input(fields: Seq<Field>) -> bool {
    &&& (forall|k: int| 0 <= k < fields.len() ==> #[trigger] identity_fault(fields[k]) is None)
    &&& lkp(fields, "name"@) is Some
    &&& lkp(fields, "version"@) is Some
    &&& lkp(fields, "publisher"@) is Some
}

/// A well-formed `properties` input.
pub open spec fn wf_properties_input(fields: Seq<Field>) -> bool {
    &&& (forall|k: int| 0 <= k < fields.len() ==> #[trigger] properties_fault(fields[k]) is None)
    &&& lkp(fields, "display_name"@) is Some
    &&& lkp(fields, "publisher_display_name"@) is Some
    &&& lkp(fields, "logo"@) is Some
}

/// A well-formed `resource` input: every field is optional.
pub open spec fn wf_resource_input(fields: Seq<Field>) -> bool {
    forall|k: int| 0 <= k < fields.len() ==> #[trigger] resource_fault(fields[k]) is None
}

/// A well-formed `target_device_family` input.
pub open spec fn wf_target_device_family_input(fields: Seq<Field>) -> bool {
    &&& (forall|k: int|
        0 <= k < fields.len() ==> #[trigger] target_device_family_fault(fields[k]) is None)
    &&& lkp(fields, "name"@) is Some
    &&& lkp(fields, "min_version"@) is Some
    &&& lkp(fields, "max_version_tested"@) is Some
}

/// A well-formed `splash_screen` input.
pub open spec fn wf_splash_screen_input(fields: Seq<Field>) -> bool {
    &&& (forall|k: int| 0 <= k < fields.len() ==> #[trigger] splash_screen_fault(fields[k]) is None)
    &&& lkp(fields, "image"@) is Some
}

/// A well-formed `lock_screen` input.
pub open spec fn wf_lock_screen_input(fields: Seq<Field>) -> bool {
    &&& (forall|k: int| 0 <= k < fields.len() ==> #[trigger] lock_screen_fault(fields[k]) is None)
    &&& lkp(fields, "badge_logo"@) is Some
    &&& lkp(fields, "notification"@) is Some
}

/// A well-formed `show_on` input.
pub open spec fn wf_show_on_input(fields: Seq<Field>) -> bool {
    &&& (forall|k: int| 0 <= k < fields.len() ==> #[trigger] show_on_fault(fields[k]) is None)
    &&& lkp(fields, "tile"@) is Some
}

/// A well-formed `show_on` element list: every element is a well-formed
/// record.
pub open spec fn wf_show_on_list(vals: Seq<Value>) -> bool {
    forall|k: int|
        0 <= k < vals.len() ==> (#[trigger] vals[k]) is Record && wf_show_on_input(
            rec_fields(vals[k]),
        )
}

/// A well-formed `show_names_on_tiles` input.
pub open spec fn wf_show_name_on_tiles_input(fields: Seq<Field>) -> bool {
    &&& (forall|k: int|
        0 <= k < fields.len() ==> #[trigger] show_name_on_tiles_fault(fields[k]) is None)
    &&& (lkp(fields, "show_on"@) matches Some(v) ==> v is List && wf_show_on_list(list_elems(v)))
}

/// A well-formed `default_tile` input.
pub open spec fn wf_default_tile_input(fields: Seq<Field>) -> bool {
    &&& (forall|k: int| 0 <= k < fields.len() ==> #[trigger] default_tile_fault(fields[k]) is None)
    &&& (lkp(fields, "show_names_on_tiles"@) matches Some(v) && v is Record
        && wf_show_name_on_tiles_input(rec_fields(v)))
}

/// A well-formed `visual_elements` input.
pub open spec fn wf_visual_elements_input(fields: Seq<Field>) -> bool {
    &&& (forall|k: int|
        0 <= k < fields.len() ==> #[trigger] visual_elements_fault(fields[k]) is None)
    &&& lkp(fields, "display_name"@) is Some
    &&& lkp(fields, "description"@) is Some
    &&& lkp(fields, "background_color"@) is Some
    &&& lkp(fields, "logo_150x150"@) is Some
    &&& lkp(fields, "logo_44x44"@) is Some
    &&& (lkp(fields, "default_tile"@) matches Some(v) ==> v is Record && wf_default_tile_input(
        rec_fields(v),
    ))
    &&& (lkp(fields, "splash_screen"@) matches Some(v) ==> v is Record && wf_splash_screen_input(
        rec_fields(v),
    ))
    &&& (lkp(fields, "lock_screen"@) matches Some(v) ==> v is Record && wf_lock_screen_input(
        rec_fields(v),
    ))
}

/// A well-formed `application` input.
pub open spec fn wf_application_input(fields: Seq<Field>) -> bool {
    &&& (forall|k: int| 0 <= k < fields.len() ==> #[trigger] application_fault(fields[k]) is None)
    &&& lkp(fields, "id"@) is Some
    &&& (lkp(fields, "visual_elements"@) matches Some(v) && v is Record
        && wf_visual_elements_input(rec_fields(v)))
}

/// A well-formed `application` element list.
pub open spec fn wf_application_list(vals: Seq<Value>) -> bool {
    forall|k: int|
        0 <= k < vals.len() ==> (#[trigger] vals[k]) is Record && wf_application_input(
            rec_fields(vals[k]),
        )
}

/// A well-formed `applications` input.
pub open spec fn wf_applications_input(fields: Seq<Field>) -> bool {
    &&& (forall|k: int| 0 <= k < fields.len() ==> #[trigger] applications_fault(fields[k]) is None)
    &&& (lkp(fields, "application"@) matches Some(v) ==> v is List && wf_application_list(
        list_elems(v),
    ))
}

/// A well-formed `resource` element list.
pub open spec fn wf_resource_list(vals: Seq<Value>) -> bool {
    forall|k: int|
        0 <= k < vals.len() ==> (#[trigger] vals[k]) is Record && wf_resource_input(
            rec_fields(vals[k]),
        )
}

/// A well-formed `resources` input.
pub open spec fn wf_resources_input(fields: Seq<Field>) -> bool {
    &&& (forall|k: int| 0 <= k < fields.len() ==> #[trigger] resources_fault(fields[k]) is None)
    &&& (lkp(fields, "resource"@) matches Some(v) ==> v is List && wf_resource_list(list_elems(v)))
}

/// A well-formed `target_device_family` element list.
pub open spec fn wf_target_device_family_list(vals: Seq<Value>) -> bool {
    forall|k: int|
        0 <= k < vals.len() ==> (#[trigger] vals[k]) is Record && wf_target_device_family_input(
            rec_fields(vals[k]),
        )
}

/// A well-formed `dependencies` input.
pub open spec fn wf_dependencies_input(fields: Seq<Field>) -> bool {
    &&& (forall|k: int| 0 <= k < fields.len() ==> #[trigger] dependencies_fault(fields[k]) is None)
    &&& (lkp(fields, "target_device_family"@) matches Some(v) ==> v is List
        && wf_target_device_family_list(list_elems(v)))
}

/// A well-formed capability body: exactly the required `name` text.
pub open spec fn wf_cap_body(fields: Seq<Field>) -> bool {
    &&& (forall|k: int|
        0 <= k < fields.len() ==> (#[trigger] fields[k]).name@ == "name"@ && fields[k].value
            is Str)
    &&& lkp(fields, "name"@) is Some
}

/// A well-formed capability element: one recognized lowercase
/// discriminator holding a well-formed body.
pub open spec fn wf_capability_input(v: Value) -> bool {
    &&& v is Record
    &&& rec_fields(v).len() == 1
    &&& (rec_fields(v)[0].name@ == "capability"@ || rec_fields(v)[0].name@ == "restricted"@
        || rec_fields(v)[0].name@ == "device"@)
    &&& rec_fields(v)[0].value is Record
    &&& wf_cap_body(rec_fields(rec_fields(v)[0].value))
}

/// A well-formed `capabilities` element list.
pub open spec fn wf_capabilities_list(vals: Seq<Value>) -> bool {
    forall|k: int| 0 <= k < vals.len() ==> wf_capability_input(#[trigger] vals[k])
}

/// A well-formed manifest document: recognized, well-shaped fields only,
/// at every nesting depth, with every required field present.
pub open spec fn wf_package_input(fields: Seq<Field>) -> bool {
    &&& (forall|k: int| 0 <= k < fields.len() ==> #[trigger] package_fault(fields[k]) is None)
    &&& (lkp(fields, "identity"@) matches Some(v) && v is Record && wf_identity_input(
        rec_fields(v),
    ))
    &&& (lkp(fields, "properties"@) matches Some(v) && v is Record && wf_properties_input(
        rec_fields(v),
    ))
    &&& (lkp(fields, "resources"@) matches Some(v) ==> v is Record && wf_resources_input(
        rec_fields(v),
    ))
    &&& (lkp(fields, "dependencies"@) matches Some(v) ==> v is Record && wf_dependencies_input(
        rec_fields(v),
    ))
    &&& (lkp(fields, "capabilities"@) matches Some(v) ==> v is List && wf_capabilities_list(
        list_elems(v),
    ))
    &&& (lkp(fields, "applications"@) matches Some(v) ==> v is Record && wf_applications_input(
        rec_fields(v),
    ))
}

proof fn identity_decodes(fields: Seq<Field>)
    requires
        wf_identity_input(fields),
    ensures
        identity_spec(fields) is Ok,
{
    identity_scan_none_of_faultless(fields);
}

proof fn properties_decodes(fields: Seq<Field>)
    requires
        wf_properties_input(fields),
    ensures
        properties_spec(fields) is Ok,
{
    properties_scan_none_of_faultless(fields);
}

proof fn resource_decodes(fields: Seq<Field>)
    requires
        wf_resource_input(fields),
    ensures
        resource_spec(fields) is Ok,
{
    resource_scan_none_of_faultless(fields);
}

proof fn target_device_family_decodes(fields: Seq<Field>)
    requires
        wf_target_device_family_input(fields),
    ensures
        target_device_family_spec(fields) is Ok,
{
    target_device_family_scan_none_of_faultless(fields);
}

proof fn splash_screen_decodes(fields: Seq<Field>)
    requires
        wf_splash_screen_input(fields),
    ensures
        splash_screen_spec(fields) is Ok,
{
    splash_screen_scan_none_of_faultless(fields);
}

proof fn lock_screen_decodes(fields: Seq<Field>)
    requires
        wf_lock_screen_input(fields),
    ensures
        lock_screen_spec(fields) is Ok,
{
    lock_screen_scan_none_of_faultless(fields);
}

proof fn show_on_decodes(fields: Seq<Field>)
    requires
        wf_show_on_input(fields),
    ensures
        show_on_spec(fields) is Ok,
{
    show_on_scan_none_of_faultless(fields);
}

proof fn show_on_list_decodes(vals: Seq<Value>)
    requires
        wf_show_on_list(vals),
    ensures
        show_on_list_spec(vals) is Ok,
    decreases vals.len(),
{
    if vals.len() > 0 {
        show_on_decodes(rec_fields(vals[0]));
        let rest = vals.drop_first();
        assert forall|k: int| 0 <= k < rest.len() implies (#[trigger] rest[k]) is Record
            && wf_show_on_input(rec_fields(rest[k])) by {
            assert(rest[k] == vals[k + 1]);
        }
        show_on_list_decodes(rest);
    }
}

proof fn show_name_on_tiles_decodes(fields: Seq<Field>)
    requires
        wf_show_name_on_tiles_input(fields),
    ensures
        show_name_on_tiles_spec(fields) is Ok,
{
    show_name_on_tiles_scan_none_of_faultless(fields);
    match lkp(fields, "show_on"@) {
        Some(v) => {
            show_on_list_decodes(list_elems(v));
        },
        None => {
            assert(list_v(lkp(fields, "show_on"@)) =~= Seq::<Value>::empty());
        },
    }
}

proof fn default_tile_decodes(fields: Seq<Field>)
    requires
        wf_default_tile_input(fields),
    ensures
        default_tile_spec(fields) is Ok,
{
    default_tile_scan_none_of_faultless(fields);
    match lkp(fields, "show_names_on_tiles"@) {
        Some(v) => {
            show_name_on_tiles_decodes(rec_fields(v));
        },
        None => {
            assert(false);
        },
    }
}

proof fn visual_elements_decodes(fields: Seq<Field>)
    requires
        wf_visual_elements_input(fields),
    ensures
        visual_elements_spec(fields) is Ok,
{
    visual_elements_scan_none_of_faultless(fields);
    match lkp(fields, "default_tile"@) {
        Some(v) => {
            default_tile_decodes(rec_fields(v));
        },
        None => {},
    }
    match lkp(fields, "splash_screen"@) {
        Some(v) => {
            splash_screen_decodes(rec_fields(v));
        },
        None => {},
    }
    match lkp(fields, "lock_screen"@) {
        Some(v) => {
            lock_screen_decodes(rec_fields(v));
        },
        None => {},
    }
}

proof fn application_decodes(fields: Seq<Field>)
    requires
        wf_application_input(fields),
    ensures
        application_spec(fields) is Ok,
{
    application_scan_none_of_faultless(fields);
    match lkp(fields, "visual_elements"@) {
        Some(v) => {
            visual_elements_decodes(rec_fields(v));
        },
        None => {
            assert(false);
        },
    }
}

proof fn application_list_decodes(vals: Seq<Value>)
    requires
        wf_application_list(vals),
    ensures
        application_list_spec(vals) is Ok,
    decreases vals.len(),
{
    if vals.len() > 0 {
        application_decodes(rec_fields(vals[0]));
        let rest = vals.drop_first();
        assert forall|k: int| 0 <= k < rest.len() implies (#[trigger] rest[k]) is Record
            && wf_application_input(rec_fields(rest[k])) by {
            assert(rest[k] == vals[k + 1]);
        }
        application_list_decodes(rest);
    }
}

proof fn applications_decodes(fields: Seq<Field>)
    requires
        wf_applications_input(fields),
    ensures
        applications_spec(fields) is Ok,
{
    applications_scan_none_of_faultless(fields);
    match lkp(fields, "application"@) {
        Some(v) => {
            application_list_decodes(list_elems(v));
        },
        None => {
            assert(list_v(lkp(fields, "application"@)) =~= Seq::<Value>::empty());
        },
    }
}

proof fn resource_list_decodes(vals: Seq<Value>)
    requires
        wf_resource_list(vals),
    ensures
        resource_list_spec(vals) is Ok,
    decreases vals.len(),
{
    if vals.len() > 0 {
        resource_decodes(rec_fields(vals[0]));
        let rest = vals.drop_first();
        assert forall|k: int| 0 <= k < rest.len() implies (#[trigger] rest[k]) is Record
            && wf_resource_input(rec_fields(rest[k])) by {
            assert(rest[k] == vals[k + 1]);
        }
        resource_list_decodes(rest);
    }
}

proof fn resources_decodes(fields: Seq<Field>)
    requires
        wf_resources_input(fields),
    ensures
        resources_spec(fields) is Ok,
{
    resources_scan_none_of_faultless(fields);
    match lkp(fields, "resource"@) {
        Some(v) => {
            resource_list_decodes(list_elems(v));
        },
        None => {
            assert(list_v(lkp(fields, "resource"@)) =~= Seq::<Value>::empty());
        },
    }
}

proof fn target_device_family_list_decodes(vals: Seq<Value>)
    requires
        wf_target_device_family_list(vals),
    ensures
        target_device_family_list_spec(vals) is Ok,
    decreases vals.len(),
{
    if vals.len() > 0 {
        target_device_family_decodes(rec_fields(vals[0]));
        let rest = vals.drop_first();
        assert forall|k: int| 0 <= k < rest.len() implies (#[trigger] rest[k]) is Record
            && wf_target_device_family_input(rec_fields(rest[k])) by {
            assert(rest[k] == vals[k + 1]);
        }
        target_device_family_list_decodes(rest);
    }
}

proof fn dependencies_decodes(fields: Seq<Field>)
    requires
        wf_dependencies_input(fields),
    ensures
        dependencies_spec(fields) is Ok,
{
    dependencies_scan_none_of_faultless(fields);
    match lkp(fields, "target_device_family"@) {
        Some(v) => {
            target_device_family_list_decodes(list_elems(v));
        },
        None => {
            assert(list_v(lkp(fields, "target_device_family"@)) =~= Seq::<Value>::empty());
        },
    }
}

proof fn cap_body_decodes(fields: Seq<Field>, c: Seq<char>)
    requires
        wf_cap_body(fields),
    ensures
        cap_name_spec(fields, c) is Ok,
{
    assert forall|k: int| 0 <= k < fields.len() implies #[trigger] cap_name_fault(
        fields[k],
        c,
    ) is None by {
        assert(fields[k].name@ == "name"@ && fields[k].value is Str);
    }
    cap_name_scan_none_of_faultless(fields, c);
}

proof fn capability_decodes(v: Value)
    requires
        wf_capability_input(v),
    ensures
        capability_item_spec(v) is Ok,
{
    let f = rec_fields(v)[0];
    if f.name@ == "capability"@ {
        cap_body_decodes(rec_fields(f.value), "capability"@);
    } else if f.name@ == "restricted"@ {
        cap_body_decodes(rec_fields(f.value), "restricted"@);
    } else {
        cap_body_decodes(rec_fields(f.value), "device"@);
    }
}

proof fn capabilities_list_decodes(vals: Seq<Value>)
    requires
        wf_capabilities_list(vals),
    ensures
        capabilities_list_spec(vals) is Ok,
    decreases vals.len(),
{
    if vals.len() > 0 {
        capability_decodes(vals[0]);
        let rest = vals.drop_first();
        assert forall|k: int| 0 <= k < rest.len() implies wf_capability_input(
            #[trigger] rest[k],
        ) by {
            assert(rest[k] == vals[k + 1]);
        }
        capabilities_list_decodes(rest);
    }
}

/// Law: every well-formed input document — one whose fields are all
/// recognized and well shaped at every nesting depth, with the required
/// fields present — decodes successfully. Together with the encoder's
/// contracts, whose functions are total and return the encoded text for
/// every model value, re-encoding a decoded manifest can never fail.
pub proof fn well_formed_manifests_decode(fields: Seq<Field>)
    requires
        wf_package_input(fields),
    ensures
        manifest_spec(fields) is Ok,
{
    package_scan_none_of_faultless(fields);
    match lkp(fields, "identity"@) {
        Some(v) => {
            identity_decodes(rec_fields(v));
        },
        None => {
            assert(false);
        },
    }
    match lkp(fields, "properties"@) {
        Some(v) => {
            properties_decodes(rec_fields(v));
        },
        None => {
            assert(false);
        },
    }
    match lkp(fields, "resources"@) {
        Some(v) => {
            resources_decodes(rec_fields(v));
        },
        None => {},
    }
    match lkp(fields, "dependencies"@) {
        Some(v) => {
            dependencies_decodes(rec_fields(v));
        },
        None => {},
    }
    match lkp(fields, "capabilities"@) {
        Some(v) => {
            capabilities_list_decodes(list_elems(v));
        },
        None => {
            assert(list_v(lkp(fields, "capabilities"@)) =~= Seq::<Value>::empty());
        },
    }
    match lkp(fields, "applications"@) {
        Some(v) => {
            applications_decodes(rec_fields(v));
        },
        None => {},
    }
}

/// The closed set of field names the document root recognizes.
pub open spec fn package_recognizes(name: Seq<char>) -> bool {
    ||| name == "ns"@
    ||| name == "ns_uap"@
    ||| name == "ns_rescap"@
    ||| name == "identity"@
    ||| name == "properties"@
    ||| name == "resources"@
    ||| name == "dependencies"@
    ||| name == "capabilities"@
    ||| name == "applications"@
}

/// Law: an unrecognized field at the document root, with no earlier
/// faulty field, fails the whole decode with `UnknownField` naming
/// exactly that field and its container.
pub proof fn unknown_root_field_reported(fields: Seq<Field>, i: int)
    requires
        0 <= i < fields.len(),
        forall|k: int| 0 <= k < i ==> #[trigger] package_fault(fields[k]) is None,
        !package_recognizes(fields[i].name@),
    ensures
        manifest_spec(fields) == Err::<AppxManifestV, ErrorSpec>(
            ErrorSpec::UnknownField { field: fields[i].name@, container: "package"@ },
        ),
{
    assert(package_fault(fields[i]) == Some(
        ErrorSpec::UnknownField { field: fields[i].name@, container: "package"@ },
    ));
    package_scan_stops_at(fields, i);
}

/// The closed set of field names a `properties` record recognizes.
pub open spec fn properties_recognizes(name: Seq<char>) -> bool {
    ||| name == "display_name"@
    ||| name == "publisher_display_name"@
    ||| name == "logo"@
    ||| name == "description"@
}

/// Law: an unrecognized field inside a nested container is reported the
/// same way, here shown for `properties`: with no earlier faulty field,
/// its decode fails with `UnknownField` naming exactly that field. Every
/// other container's decode obeys the same rule through its own
/// mathematical statement.
pub proof fn unknown_properties_field_reported(fields: Seq<Field>, i: int)
    requires
        0 <= i < fields.len(),
        forall|k: int| 0 <= k < i ==> #[trigger] properties_fault(fields[k]) is None,
        !properties_recognizes(fields[i].name@),
    ensures
        properties_spec(fields) == Err::<crate::model::PropertiesV, ErrorSpec>(
            ErrorSpec::UnknownField { field: fields[i].name@, container: "properties"@ },
        ),
{
    assert(properties_fault(fields[i]) == Some(
        ErrorSpec::UnknownField { field: fields[i].name@, container: "properties"@ },
    ));
    properties_scan_stops_at(fields, i);
}

/// Law: a successful decode implies that every root field was
/// recognized — no unknown field is ever silently dropped.
pub proof fn decode_accepts_only_recognized(fields: Seq<Field>)
    ensures
        manifest_spec(fields) is Ok ==> forall|k: int|
            0 <= k < fields.len() ==> package_recognizes((#[trigger] fields[k]).name@),
{
    if manifest_spec(fields) is Ok {
        package_faultless_of_scan_none(fields);
        assert forall|k: int| 0 <= k < fields.len() implies package_recognizes(
            (#[trigger] fields[k]).name@,
        ) by {
            assert(package_fault(fields[k]) is None);
        }
    }
}

/// The text a capability variant carries.
pub open spec fn cap_name_text(c: Capability) -> Seq<char> {
    match c {
        Capability::Capability { name } => name@,
        Capability::Restricted { name } => name@,
        Capability::Device { name } => name@,
    }
}

/// Law: the capability codec's decode table and encode table correspond
/// variant by variant. A capability decoded from the `capability`
/// discriminator encodes under the `Capability` tag, one decoded from
/// `restricted` under `rescap:Capability`, and one decoded from `device`
/// under `DeviceCapability`; the two tag vocabularies are never
/// symmetric.
pub proof fn capability_round_trip(v: Value, cap: Capability)
    requires
        capability_item_spec(v) == Ok::<CapabilityV, ErrorSpec>(cap@),
    ensures
        v is Record,
        rec_fields(v).len() == 1,
        rec_fields(v)[0].name@ == "capability"@ || rec_fields(v)[0].name@ == "restricted"@
            || rec_fields(v)[0].name@ == "device"@,
        rec_fields(v)[0].name@ == "capability"@ ==> cap is Capability && capability_xml(cap)
            == "<Capability"@ + attr("Name"@, cap_name_text(cap)) + "></Capability>"@,
        rec_fields(v)[0].name@ == "restricted"@ ==> cap is Restricted && capability_xml(cap)
            == "<rescap:Capability"@ + attr("Name"@, cap_name_text(cap))
            + "></rescap:Capability>"@,
        rec_fields(v)[0].name@ == "device"@ ==> cap is Device && capability_xml(cap)
            == "<DeviceCapability"@ + attr("Name"@, cap_name_text(cap)) + "></DeviceCapability>"@,
{
    reveal_strlit("capability");
    reveal_strlit("restricted");
    reveal_strlit("device");
    assert("capability"@.len() == 10);
    assert("restricted"@.len() == 10);
    assert("device"@.len() == 6);
    assert("capability"@[0] == 'c');
    assert("restricted"@[0] == 'r');
}

/// Law: decoding a capability list preserves its length and its order:
/// the capability at each position decodes from the element at the same
/// position. The encoder renders the sequence in the same order, so the
/// order of capabilities is kept end-to-end.
pub proof fn capability_order_preserved(vals: Seq<Value>, caps: Seq<CapabilityV>)
    requires
        capabilities_list_spec(vals) == Ok::<Seq<CapabilityV>, ErrorSpec>(caps),
    ensures
        caps.len() == vals.len(),
        forall|k: int|
            0 <= k < vals.len() ==> capability_item_spec(#[trigger] vals[k]) == Ok::<
                CapabilityV,
                ErrorSpec,
            >(caps[k]),
    decreases vals.len(),
{
    if vals.len() == 0 {
        assert(caps =~= Seq::<CapabilityV>::empty());
    } else {
        match capability_item_spec(vals[0]) {
            Ok(x) => {
                match capabilities_list_spec(vals.drop_first()) {
                    Ok(rest) => {
                        assert(caps == seq![x] + rest);
                        assert(caps.drop_first() =~= rest);
                        capability_order_preserved(vals.drop_first(), rest);
                        assert forall|k: int| 0 <= k < vals.len() implies capability_item_spec(
                            #[trigger] vals[k],
                        ) == Ok::<CapabilityV, ErrorSpec>(caps[k]) by {
                            if k > 0 {
                                assert(vals[k] == vals.drop_first()[k - 1]);
                                assert(caps[k] == rest[k - 1]);
                            } else {
                                assert(caps[0] == x);
                            }
                        }
                    },
                    Err(_) => {
                        assert(false);
                    },
                }
            },
            Err(_) => {
                assert(false);
            },
        }
    }
}

} // verus!
