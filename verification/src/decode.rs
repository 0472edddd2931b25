//! The strict record decoder.
//!
//! Each decoder turns the field list of one input record into its typed
//! model, or fails. For every container the set of recognized field names
//! is fixed and closed: a present-but-unrecognized field at any nesting
//! level fails with `UnknownField` naming the field and its container,
//! because a silent drop would hide upstream schema drift. A recognized
//! field of the wrong shape fails with `TypeMismatch`. After the whole
//! record is scanned, a missing required field fails with
//! `MissingRequiredField`, in declaration order. Absent optional fields
//! decode to the semantic absent value; absent sequence fields decode to
//! the empty sequence.
//!
//! Every `*_spec` function below is the exact mathematical statement of
//! one decoder: the decoder is proved to return precisely its result.
//! Faults are judged field by field in document order; when several
//! fields are faulty, the first one in the document wins. When one name
//! occurs twice, the first occurrence supplies the value (and both
//! occurrences must be well shaped).

use vstd::pervasive::arbitrary;
use vstd::prelude::*;

use crate::error::{Error, ErrorSpec};
use crate::input::{Field, Value};
use crate::model::{Identity, IdentityV};
use crate::model::{LockScreen, LockScreenV};
use crate::model::{Properties, PropertiesV};
use crate::model::{Resource, ResourceV};
use crate::model::{Application, ApplicationV};
use crate::model::{AppxManifest, AppxManifestV};
use crate::model::Applications;
use crate::model::{Capability, CapabilityV};
use crate::model::{DefaultTile, DefaultTileV};
use crate::model::{Dependencies, Resources, ShowNameOnTiles};
use crate::model::{VisualElements, VisualElementsV};
use crate::model::{ShowOn, ShowOnV};
use crate::model::{SplashScreen, SplashScreenV};
use crate::model::{TargetDeviceFamily, TargetDeviceFamilyV};

verus! {

/// First-match lookup: the value of the earliest field named `name`.
pub open spec fn lkp(fields: Seq<Field>, name: Seq<char>) -> Option<Value>
    decreases fields.len(),
{
    if fields.len() == 0 {
        None
    } else if fields[0].name@ == name {
        Some(fields[0].value)
    } else {
        lkp(fields.drop_first(), name)
    }
}

/// The text carried by a looked-up text field.
pub open spec fn str_v(v: Option<Value>) -> Seq<char> {
    match v {
        Some(Value::Str(s)) => s@,
        _ => arbitrary(),
    }
}

/// The text carried by a looked-up optional text field, absent when the
/// field is absent.
pub open spec fn opt_str_v(v: Option<Value>) -> Option<Seq<char>> {
    match v {
        Some(Value::Str(s)) => Some(s@),
        _ => None,
    }
}

/// The number carried by a looked-up optional numeric field.
pub open spec fn opt_num_v(v: Option<Value>) -> Option<u32> {
    match v {
        Some(Value::UInt(n)) => Some(n),
        _ => None,
    }
}

/// The field list of a looked-up record field.
pub open spec fn rec_v(v: Option<Value>) -> Seq<Field> {
    match v {
        Some(Value::Record(fs)) => fs@,
        _ => arbitrary(),
    }
}

/// The elements of a looked-up list field, empty when the field is
/// absent.
pub open spec fn list_v(v: Option<Value>) -> Seq<Value> {
    match v {
        Some(Value::List(vs)) => vs@,
        _ => Seq::<Value>::empty(),
    }
}

/// How a decoder's outcome relates to its mathematical statement: equal
/// images on success, equal errors on failure.
pub open spec fn outcome_eq<T: View>(r: Result<T, Error>, s: Result<T::V, ErrorSpec>) -> bool {
    match (r, s) {
        (Ok(a), Ok(b)) => a@ == b,
        (Err(e), Err(f)) => e@ == f,
        _ => false,
    }
}

/// True of a slot holding the first occurrence of a text field: either
/// the slot has resolved the lookup, or the lookup continues past `i`.
pub open spec fn str_slot(slot: Option<&String>, fields: Seq<Field>, i: int, name: Seq<char>) -> bool {
    match slot {
        Some(s) => lkp(fields, name) == Some(Value::Str(*s)),
        None => lkp(fields, name) == lkp(fields.skip(i), name),
    }
}

fn name_is(name: &String, lit: &str) -> (r: bool)
    ensures
        r == (name@ == lit@),
{
    let s = String::from_str(lit);
    *name == s
}

fn err_unknown(field: &String, container: &str) -> (e: Error)
    ensures
        e@ == (ErrorSpec::UnknownField { field: field@, container: container@ }),
{
    Error::UnknownField { field: field.clone(), container: String::from_str(container) }
}

fn err_mismatch(field: &String, container: &str) -> (e: Error)
    ensures
        e@ == (ErrorSpec::TypeMismatch { field: field@, container: container@ }),
{
    Error::TypeMismatch { field: field.clone(), container: String::from_str(container) }
}

fn err_mismatch_lit(field: &str, container: &str) -> (e: Error)
    ensures
        e@ == (ErrorSpec::TypeMismatch { field: field@, container: container@ }),
{
    Error::TypeMismatch {
        field: String::from_str(field),
        container: String::from_str(container),
    }
}

fn err_missing(field: &str, container: &str) -> (e: Error)
    ensures
        e@ == (ErrorSpec::MissingRequiredField { field: field@, container: container@ }),
{
    Error::MissingRequiredField {
        field: String::from_str(field),
        container: String::from_str(container),
    }
}

fn err_variant(discriminator: &String) -> (e: Error)
    ensures
        e@ == (ErrorSpec::UnrecognizedVariant { discriminator: discriminator@ }),
{
    Error::UnrecognizedVariant { discriminator: discriminator.clone() }
}

proof fn properties_names_distinct()
    ensures
        "display_name"@ != "publisher_display_name"@,
        "display_name"@ != "logo"@,
        "display_name"@ != "description"@,
        "publisher_display_name"@ != "logo"@,
        "publisher_display_name"@ != "description"@,
        "logo"@ != "description"@,
{
    reveal_strlit("display_name");
    reveal_strlit("publisher_display_name");
    reveal_strlit("logo");
    reveal_strlit("description");
    assert("display_name"@.len() == 12);
    assert("publisher_display_name"@.len() == 22);
    assert("logo"@.len() == 4);
    assert("description"@.len() == 11);
}

proof fn identity_names_distinct()
    ensures
        "name"@ != "version"@,
        "name"@ != "publisher"@,
        "name"@ != "processor_architecture"@,
        "version"@ != "publisher"@,
        "version"@ != "processor_architecture"@,
        "publisher"@ != "processor_architecture"@,
{
    reveal_strlit("name");
    reveal_strlit("version");
    reveal_strlit("publisher");
    reveal_strlit("processor_architecture");
    assert("name"@.len() == 4);
    assert("version"@.len() == 7);
    assert("publisher"@.len() == 9);
    assert("processor_architecture"@.len() == 22);
}

/// The closed schema of one `properties` field: nothing when the field
/// is recognized and well shaped, else the fault it raises.
pub open spec fn properties_fault(f: Field) -> Option<ErrorSpec> {
    if f.name@ == "display_name"@ || f.name@ == "publisher_display_name"@ || f.name@ == "logo"@
        || f.name@ == "description"@ {
        if f.value is Str {
            None
        } else {
            Some(ErrorSpec::TypeMismatch { field: f.name@, container: "properties"@ })
        }
    } else {
        Some(ErrorSpec::UnknownField { field: f.name@, container: "properties"@ })
    }
}

/// The first fault among the fields of a `properties` record.
pub open spec fn properties_scan(fields: Seq<Field>) -> Option<ErrorSpec>
    decreases fields.len(),
{
    if fields.len() == 0 {
        None
    } else {
        match properties_fault(fields[0]) {
            Some(e) => Some(e),
            None => properties_scan(fields.drop_first()),
        }
    }
}

/// Strict decode of a `properties` record: three required text fields
/// and an optional description.
pub open spec fn properties_spec(fields: Seq<Field>) -> Result<PropertiesV, ErrorSpec> {
    match properties_scan(fields) {
        Some(e) => Err(e),
        None => if lkp(fields, "display_name"@) is None {
            Err(
                ErrorSpec::MissingRequiredField {
                    field: "display_name"@,
                    container: "properties"@,
                },
            )
        } else if lkp(fields, "publisher_display_name"@) is None {
            Err(
                ErrorSpec::MissingRequiredField {
                    field: "publisher_display_name"@,
                    container: "properties"@,
                },
            )
        } else if lkp(fields, "logo"@) is None {
            Err(ErrorSpec::MissingRequiredField { field: "logo"@, container: "properties"@ })
        } else {
            Ok(
                PropertiesV {
                    display_name: str_v(lkp(fields, "display_name"@)),
                    publisher_display_name: str_v(lkp(fields, "publisher_display_name"@)),
                    logo: str_v(lkp(fields, "logo"@)),
                    description: opt_str_v(lkp(fields, "description"@)),
                },
            )
        },
    }
}

/// Decodes a `properties` record.
pub fn decode_properties(fields: &Vec<Field>) -> (r: Result<Properties, Error>)
    ensures
        outcome_eq(r, properties_spec(fields@)),
{
    proof {
        properties_names_distinct();
    }
    let ghost fs = fields@;
    proof {
        assert(fs.skip(0) =~= fs);
    }
    let mut display_name: Option<&String> = None;
    let mut publisher_display_name: Option<&String> = None;
    let mut logo: Option<&String> = None;
    let mut description: Option<&String> = None;
    let n = fields.len();
    let mut i: usize = 0;
    while i < n
        invariant
            i <= n,
            n == fields.len(),
            fs == fields@,
            properties_scan(fs) == properties_scan(fs.skip(i as int)),
            str_slot(display_name, fs, i as int, "display_name"@),
            str_slot(publisher_display_name, fs, i as int, "publisher_display_name"@),
            str_slot(logo, fs, i as int, "logo"@),
            str_slot(description, fs, i as int, "description"@),
        decreases n - i,
    {
        let f = &fields[i];
        proof {
            properties_names_distinct();
            assert(fs.skip(i as int)[0] == fs[i as int]);
            assert(fs.skip(i as int).drop_first() =~= fs.skip(i as int + 1));
        }
        if name_is(&f.name, "display_name") {
            match &f.value {
                Value::Str(s) => {
                    if display_name.is_none() {
                        display_name = Some(s);
                    }
                },
                _ => {
                    return Err(err_mismatch(&f.name, "properties"));
                },
            }
        } else if name_is(&f.name, "publisher_display_name") {
            match &f.value {
                Value::Str(s) => {
                    if publisher_display_name.is_none() {
                        publisher_display_name = Some(s);
                    }
                },
                _ => {
                    return Err(err_mismatch(&f.name, "properties"));
                },
            }
        } else if name_is(&f.name, "logo") {
            match &f.value {
                Value::Str(s) => {
                    if logo.is_none() {
                        logo = Some(s);
                    }
                },
                _ => {
                    return Err(err_mismatch(&f.name, "properties"));
                },
            }
        } else if name_is(&f.name, "description") {
            match &f.value {
                Value::Str(s) => {
                    if description.is_none() {
                        description = Some(s);
                    }
                },
                _ => {
                    return Err(err_mismatch(&f.name, "properties"));
                },
            }
        } else {
            return Err(err_unknown(&f.name, "properties"));
        }
        i += 1;
    }
    proof {
        assert(fs.skip(n as int) =~= Seq::<Field>::empty());
    }
    let display_name = match display_name {
        Some(s) => s.clone(),
        None => {
            return Err(err_missing("display_name", "properties"));
        },
    };
    let publisher_display_name = match publisher_display_name {
        Some(s) => s.clone(),
        None => {
            return Err(err_missing("publisher_display_name", "properties"));
        },
    };
    let logo = match logo {
        Some(s) => s.clone(),
        None => {
            return Err(err_missing("logo", "properties"));
        },
    };
    let description = match description {
        Some(s) => Some(s.clone()),
        None => None,
    };
    let p = Properties { display_name, publisher_display_name, logo, description };
    proof {
        match properties_spec(fs) {
            Ok(v) => {
                assert(p@ =~= v);
            },
            Err(_) => {
                assert(false);
            },
        }
    }
    Ok(p)
}

/// The closed schema of one `identity` field.
pub open spec fn identity_fault(f: Field) -> Option<ErrorSpec> {
    if f.name@ == "name"@ || f.name@ == "version"@ || f.name@ == "publisher"@ || f.name@
        == "processor_architecture"@ {
        if f.value is Str {
            None
        } else {
            Some(ErrorSpec::TypeMismatch { field: f.name@, container: "identity"@ })
        }
    } else {
        Some(ErrorSpec::UnknownField { field: f.name@, container: "identity"@ })
    }
}

/// The first fault among the fields of an `identity` record.
pub open spec fn identity_scan(fields: Seq<Field>) -> Option<ErrorSpec>
    decreases fields.len(),
{
    if fields.len() == 0 {
        None
    } else {
        match identity_fault(fields[0]) {
            Some(e) => Some(e),
            None => identity_scan(fields.drop_first()),
        }
    }
}

/// Strict decode of an `identity` record: three required text fields and
/// an optional architecture.
pub open spec fn identity_spec(fields: Seq<Field>) -> Result<IdentityV, ErrorSpec> {
    match identity_scan(fields) {
        Some(e) => Err(e),
        None => if lkp(fields, "name"@) is None {
            Err(ErrorSpec::MissingRequiredField { field: "name"@, container: "identity"@ })
        } else if lkp(fields, "version"@) is None {
            Err(ErrorSpec::MissingRequiredField { field: "version"@, container: "identity"@ })
        } else if lkp(fields, "publisher"@) is None {
            Err(ErrorSpec::MissingRequiredField { field: "publisher"@, container: "identity"@ })
        } else {
            Ok(
                IdentityV {
                    name: str_v(lkp(fields, "name"@)),
                    version: str_v(lkp(fields, "version"@)),
                    publisher: str_v(lkp(fields, "publisher"@)),
                    processor_architecture: opt_str_v(lkp(fields, "processor_architecture"@)),
                },
            )
        },
    }
}

/// Decodes an `identity` record.
pub fn decode_identity(fields: &Vec<Field>) -> (r: Result<Identity, Error>)
    ensures
        outcome_eq(r, identity_spec(fields@)),
{
    proof {
        identity_names_distinct();
    }
    let ghost fs = fields@;
    proof {
        assert(fs.skip(0) =~= fs);
    }
    let mut name: Option<&String> = None;
    let mut version: Option<&String> = None;
    let mut publisher: Option<&String> = None;
    let mut processor_architecture: Option<&String> = None;
    let n = fields.len();
    let mut i: usize = 0;
    while i < n
        invariant
            i <= n,
            n == fields.len(),
            fs == fields@,
            identity_scan(fs) == identity_scan(fs.skip(i as int)),
            str_slot(name, fs, i as int, "name"@),
            str_slot(version, fs, i as int, "version"@),
            str_slot(publisher, fs, i as int, "publisher"@),
            str_slot(processor_architecture, fs, i as int, "processor_architecture"@),
        decreases n - i,
    {
        let f = &fields[i];
        proof {
            identity_names_distinct();
            assert(fs.skip(i as int)[0] == fs[i as int]);
            assert(fs.skip(i as int).drop_first() =~= fs.skip(i as int + 1));
        }
        if name_is(&f.name, "name") {
            match &f.value {
                Value::Str(s) => {
                    if name.is_none() {
                        name = Some(s);
                    }
                },
                _ => {
                    return Err(err_mismatch(&f.name, "identity"));
                },
            }
        } else if name_is(&f.name, "version") {
            match &f.value {
                Value::Str(s) => {
                    if version.is_none() {
                        version = Some(s);
                    }
                },
                _ => {
                    return Err(err_mismatch(&f.name, "identity"));
                },
            }
        } else if name_is(&f.name, "publisher") {
            match &f.value {
                Value::Str(s) => {
                    if publisher.is_none() {
                        publisher = Some(s);
                    }
                },
                _ => {
                    return Err(err_mismatch(&f.name, "identity"));
                },
            }
        } else if name_is(&f.name, "processor_architecture") {
            match &f.value {
                Value::Str(s) => {
                    if processor_architecture.is_none() {
                        processor_architecture = Some(s);
                    }
                },
                _ => {
                    return Err(err_mismatch(&f.name, "identity"));
                },
            }
        } else {
            return Err(err_unknown(&f.name, "identity"));
        }
        i += 1;
    }
    proof {
        assert(fs.skip(n as int) =~= Seq::<Field>::empty());
    }
    let name = match name {
        Some(s) => s.clone(),
        None => {
            return Err(err_missing("name", "identity"));
        },
    };
    let version = match version {
        Some(s) => s.clone(),
        None => {
            return Err(err_missing("version", "identity"));
        },
    };
    let publisher = match publisher {
        Some(s) => s.clone(),
        None => {
            return Err(err_missing("publisher", "identity"));
        },
    };
    let processor_architecture = match processor_architecture {
        Some(s) => Some(s.clone()),
        None => None,
    };
    let m = Identity { name, version, publisher, processor_architecture };
    proof {
        match identity_spec(fs) {
            Ok(v) => {
                assert(m@ =~= v);
            },
            Err(_) => {
                assert(false);
            },
        }
    }
    Ok(m)
}

proof fn target_device_family_names_distinct()
    ensures
        "name"@ != "min_version"@,
        "name"@ != "max_version_tested"@,
        "min_version"@ != "max_version_tested"@,
{
    reveal_strlit("name");
    reveal_strlit("min_version");
    reveal_strlit("max_version_tested");
    assert("name"@.len() == 4);
    assert("min_version"@.len() == 11);
    assert("max_version_tested"@.len() == 18);
}

/// The closed schema of one `target_device_family` field.
pub open spec fn target_device_family_fault(f: Field) -> Option<ErrorSpec> {
    if f.name@ == "name"@ || f.name@ == "min_version"@ || f.name@ == "max_version_tested"@ {
        if f.value is Str {
            None
        } else {
            Some(ErrorSpec::TypeMismatch { field: f.name@, container: "target_device_family"@ })
        }
    } else {
        Some(ErrorSpec::UnknownField { field: f.name@, container: "target_device_family"@ })
    }
}

/// The first fault among the fields of a `target_device_family` record.
pub open spec fn target_device_family_scan(fields: Seq<Field>) -> Option<ErrorSpec>
    decreases fields.len(),
{
    if fields.len() == 0 {
        None
    } else {
        match target_device_family_fault(fields[0]) {
            Some(e) => Some(e),
            None => target_device_family_scan(fields.drop_first()),
        }
    }
}

/// Strict decode of a `target_device_family` record.
pub open spec fn target_device_family_spec(fields: Seq<Field>) -> Result<TargetDeviceFamilyV, ErrorSpec> {
    match target_device_family_scan(fields) {
        Some(e) => Err(e),
        None => if lkp(fields, "name"@) is None {
            Err(ErrorSpec::MissingRequiredField { field: "name"@, container: "target_device_family"@ })
        } else if lkp(fields, "min_version"@) is None {
            Err(ErrorSpec::MissingRequiredField { field: "min_version"@, container: "target_device_family"@ })
        } else if lkp(fields, "max_version_tested"@) is None {
            Err(ErrorSpec::MissingRequiredField { field: "max_version_tested"@, container: "target_device_family"@ })
        } else {
            Ok(
                TargetDeviceFamilyV {
                    name: str_v(lkp(fields, "name"@)),
                    min_version: str_v(lkp(fields, "min_version"@)),
                    max_version_tested: str_v(lkp(fields, "max_version_tested"@)),
                },
            )
        },
    }
}

/// Decodes a `target_device_family` record.
pub fn decode_target_device_family(fields: &Vec<Field>) -> (r: Result<TargetDeviceFamily, Error>)
    ensures
        outcome_eq(r, target_device_family_spec(fields@)),
{
    let ghost fs = fields@;
    proof {
        assert(fs.skip(0) =~= fs);
    }
    let mut name: Option<&String> = None;
    let mut min_version: Option<&String> = None;
    let mut max_version_tested: Option<&String> = None;
    let n = fields.len();
    let mut i: usize = 0;
    while i < n
        invariant
            i <= n,
            n == fields.len(),
            fs == fields@,
            target_device_family_scan(fs) == target_device_family_scan(fs.skip(i as int)),
            str_slot(name, fs, i as int, "name"@),
            str_slot(min_version, fs, i as int, "min_version"@),
            str_slot(max_version_tested, fs, i as int, "max_version_tested"@),
        decreases n - i,
    {
        let f = &fields[i];
        proof {
            target_device_family_names_distinct();
            assert(fs.skip(i as int)[0] == fs[i as int]);
            assert(fs.skip(i as int).drop_first() =~= fs.skip(i as int + 1));
        }
        if name_is(&f.name, "name") {
            match &f.value {
                Value::Str(s) => {
                    if name.is_none() {
                        name = Some(s);
                    }
                },
                _ => {
                    return Err(err_mismatch(&f.name, "target_device_family"));
                },
            }
        } else if name_is(&f.name, "min_version") {
            match &f.value {
                Value::Str(s) => {
                    if min_version.is_none() {
                        min_version = Some(s);
                    }
                },
                _ => {
                    return Err(err_mismatch(&f.name, "target_device_family"));
                },
            }
        } else if name_is(&f.name, "max_version_tested") {
            match &f.value {
                Value::Str(s) => {
                    if max_version_tested.is_none() {
                        max_version_tested = Some(s);
                    }
                },
                _ => {
                    return Err(err_mismatch(&f.name, "target_device_family"));
                },
            }
        } else {
            return Err(err_unknown(&f.name, "target_device_family"));
        }
        i += 1;
    }
    proof {
        assert(fs.skip(n as int) =~= Seq::<Field>::empty());
    }
    let name = match name {
        Some(s) => s.clone(),
        None => {
            return Err(err_missing("name", "target_device_family"));
        },
    };
    let min_version = match min_version {
        Some(s) => s.clone(),
        None => {
            return Err(err_missing("min_version", "target_device_family"));
        },
    };
    let max_version_tested = match max_version_tested {
        Some(s) => s.clone(),
        None => {
            return Err(err_missing("max_version_tested", "target_device_family"));
        },
    };
    let m = TargetDeviceFamily { name, min_version, max_version_tested };
    proof {
        match target_device_family_spec(fs) {
            Ok(v) => {
                assert(m@ =~= v);
            },
            Err(_) => {
                assert(false);
            },
        }
    }
    Ok(m)
}

proof fn lock_screen_names_distinct()
    ensures
        "badge_logo"@ != "notification"@,
{
    reveal_strlit("badge_logo");
    reveal_strlit("notification");
    assert("badge_logo"@.len() == 10);
    assert("notification"@.len() == 12);
}

/// The closed schema of one `lock_screen` field.
pub open spec fn lock_screen_fault(f: Field) -> Option<ErrorSpec> {
    if f.name@ == "badge_logo"@ || f.name@ == "notification"@ {
        if f.value is Str {
            None
        } else {
            Some(ErrorSpec::TypeMismatch { field: f.name@, container: "lock_screen"@ })
        }
    } else {
        Some(ErrorSpec::UnknownField { field: f.name@, container: "lock_screen"@ })
    }
}

/// The first fault among the fields of a `lock_screen` record.
pub open spec fn lock_screen_scan(fields: Seq<Field>) -> Option<ErrorSpec>
    decreases fields.len(),
{
    if fields.len() == 0 {
        None
    } else {
        match lock_screen_fault(fields[0]) {
            Some(e) => Some(e),
            None => lock_screen_scan(fields.drop_first()),
        }
    }
}

/// Strict decode of a `lock_screen` record.
pub open spec fn lock_screen_spec(fields: Seq<Field>) -> Result<LockScreenV, ErrorSpec> {
    match lock_screen_scan(fields) {
        Some(e) => Err(e),
        None => if lkp(fields, "badge_logo"@) is None {
            Err(ErrorSpec::MissingRequiredField { field: "badge_logo"@, container: "lock_screen"@ })
        } else if lkp(fields, "notification"@) is None {
            Err(ErrorSpec::MissingRequiredField { field: "notification"@, container: "lock_screen"@ })
        } else {
            Ok(
                LockScreenV {
                    badge_logo: str_v(lkp(fields, "badge_logo"@)),
                    notification: str_v(lkp(fields, "notification"@)),
                },
            )
        },
    }
}

/// Decodes a `lock_screen` record.
pub fn decode_lock_screen(fields: &Vec<Field>) -> (r: Result<LockScreen, Error>)
    ensures
        outcome_eq(r, lock_screen_spec(fields@)),
{
    let ghost fs = fields@;
    proof {
        assert(fs.skip(0) =~= fs);
    }
    let mut badge_logo: Option<&String> = None;
    let mut notification: Option<&String> = None;
    let n = fields.len();
    let mut i: usize = 0;
    while i < n
        invariant
            i <= n,
            n == fields.len(),
            fs == fields@,
            lock_screen_scan(fs) == lock_screen_scan(fs.skip(i as int)),
            str_slot(badge_logo, fs, i as int, "badge_logo"@),
            str_slot(notification, fs, i as int, "notification"@),
        decreases n - i,
    {
        let f = &fields[i];
        proof {
            lock_screen_names_distinct();
            assert(fs.skip(i as int)[0] == fs[i as int]);
            assert(fs.skip(i as int).drop_first() =~= fs.skip(i as int + 1));
        }
        if name_is(&f.name, "badge_logo") {
            match &f.value {
                Value::Str(s) => {
                    if badge_logo.is_none() {
                        badge_logo = Some(s);
                    }
                },
                _ => {
                    return Err(err_mismatch(&f.name, "lock_screen"));
                },
            }
        } else if name_is(&f.name, "notification") {
            match &f.value {
                Value::Str(s) => {
                    if notification.is_none() {
                        notification = Some(s);
                    }
                },
                _ => {
                    return Err(err_mismatch(&f.name, "lock_screen"));
                },
            }
        } else {
            return Err(err_unknown(&f.name, "lock_screen"));
        }
        i += 1;
    }
    proof {
        assert(fs.skip(n as int) =~= Seq::<Field>::empty());
    }
    let badge_logo = match badge_logo {
        Some(s) => s.clone(),
        None => {
            return Err(err_missing("badge_logo", "lock_screen"));
        },
    };
    let notification = match notification {
        Some(s) => s.clone(),
        None => {
            return Err(err_missing("notification", "lock_screen"));
        },
    };
    let m = LockScreen { badge_logo, notification };
    proof {
        match lock_screen_spec(fs) {
            Ok(v) => {
                assert(m@ =~= v);
            },
            Err(_) => {
                assert(false);
            },
        }
    }
    Ok(m)
}

/// The closed schema of one `splash_screen` field.
pub open spec fn splash_screen_fault(f: Field) -> Option<ErrorSpec> {
    if f.name@ == "image"@ {
        if f.value is Str {
            None
        } else {
            Some(ErrorSpec::TypeMismatch { field: f.name@, container: "splash_screen"@ })
        }
    } else {
        Some(ErrorSpec::UnknownField { field: f.name@, container: "splash_screen"@ })
    }
}

/// The first fault among the fields of a `splash_screen` record.
pub open spec fn splash_screen_scan(fields: Seq<Field>) -> Option<ErrorSpec>
    decreases fields.len(),
{
    if fields.len() == 0 {
        None
    } else {
        match splash_screen_fault(fields[0]) {
            Some(e) => Some(e),
            None => splash_screen_scan(fields.drop_first()),
        }
    }
}

/// Strict decode of a `splash_screen` record.
pub open spec fn splash_screen_spec(fields: Seq<Field>) -> Result<SplashScreenV, ErrorSpec> {
    match splash_screen_scan(fields) {
        Some(e) => Err(e),
        None => if lkp(fields, "image"@) is None {
            Err(ErrorSpec::MissingRequiredField { field: "image"@, container: "splash_screen"@ })
        } else {
            Ok(
                SplashScreenV {
                    image: str_v(lkp(fields, "image"@)),
                },
            )
        },
    }
}

/// Decodes a `splash_screen` record.
pub fn decode_splash_screen(fields: &Vec<Field>) -> (r: Result<SplashScreen, Error>)
    ensures
        outcome_eq(r, splash_screen_spec(fields@)),
{
    let ghost fs = fields@;
    proof {
        assert(fs.skip(0) =~= fs);
    }
    let mut image: Option<&String> = None;
    let n = fields.len();
    let mut i: usize = 0;
    while i < n
        invariant
            i <= n,
            n == fields.len(),
            fs == fields@,
            splash_screen_scan(fs) == splash_screen_scan(fs.skip(i as int)),
            str_slot(image, fs, i as int, "image"@),
        decreases n - i,
    {
        let f = &fields[i];
        proof {
            assert(fs.skip(i as int)[0] == fs[i as int]);
            assert(fs.skip(i as int).drop_first() =~= fs.skip(i as int + 1));
        }
        if name_is(&f.name, "image") {
            match &f.value {
                Value::Str(s) => {
                    if image.is_none() {
                        image = Some(s);
                    }
                },
                _ => {
                    return Err(err_mismatch(&f.name, "splash_screen"));
                },
            }
        } else {
            return Err(err_unknown(&f.name, "splash_screen"));
        }
        i += 1;
    }
    proof {
        assert(fs.skip(n as int) =~= Seq::<Field>::empty());
    }
    let image = match image {
        Some(s) => s.clone(),
        None => {
            return Err(err_missing("image", "splash_screen"));
        },
    };
    let m = SplashScreen { image };
    proof {
        match splash_screen_spec(fs) {
            Ok(v) => {
                assert(m@ =~= v);
            },
            Err(_) => {
                assert(false);
            },
        }
    }
    Ok(m)
}

/// The closed schema of one `show_on` field.
pub open spec fn show_on_fault(f: Field) -> Option<ErrorSpec> {
    if f.name@ == "tile"@ {
        if f.value is Str {
            None
        } else {
            Some(ErrorSpec::TypeMismatch { field: f.name@, container: "show_on"@ })
        }
    } else {
        Some(ErrorSpec::UnknownField { field: f.name@, container: "show_on"@ })
    }
}

/// The first fault among the fields of a `show_on` record.
pub open spec fn show_on_scan(fields: Seq<Field>) -> Option<ErrorSpec>
    decreases fields.len(),
{
    if fields.len() == 0 {
        None
    } else {
        match show_on_fault(fields[0]) {
            Some(e) => Some(e),
            None => show_on_scan(fields.drop_first()),
        }
    }
}

/// Strict decode of a `show_on` record.
pub open spec fn show_on_spec(fields: Seq<Field>) -> Result<ShowOnV, ErrorSpec> {
    match show_on_scan(fields) {
        Some(e) => Err(e),
        None => if lkp(fields, "tile"@) is None {
            Err(ErrorSpec::MissingRequiredField { field: "tile"@, container: "show_on"@ })
        } else {
            Ok(
                ShowOnV {
                    tile: str_v(lkp(fields, "tile"@)),
                },
            )
        },
    }
}

/// Decodes a `show_on` record.
pub fn decode_show_on(fields: &Vec<Field>) -> (r: Result<ShowOn, Error>)
    ensures
        outcome_eq(r, show_on_spec(fields@)),
{
    let ghost fs = fields@;
    proof {
        assert(fs.skip(0) =~= fs);
    }
    let mut tile: Option<&String> = None;
    let n = fields.len();
    let mut i: usize = 0;
    while i < n
        invariant
            i <= n,
            n == fields.len(),
            fs == fields@,
            show_on_scan(fs) == show_on_scan(fs.skip(i as int)),
            str_slot(tile, fs, i as int, "tile"@),
        decreases n - i,
    {
        let f = &fields[i];
        proof {
            assert(fs.skip(i as int)[0] == fs[i as int]);
            assert(fs.skip(i as int).drop_first() =~= fs.skip(i as int + 1));
        }
        if name_is(&f.name, "tile") {
            match &f.value {
                Value::Str(s) => {
                    if tile.is_none() {
                        tile = Some(s);
                    }
                },
                _ => {
                    return Err(err_mismatch(&f.name, "show_on"));
                },
            }
        } else {
            return Err(err_unknown(&f.name, "show_on"));
        }
        i += 1;
    }
    proof {
        assert(fs.skip(n as int) =~= Seq::<Field>::empty());
    }
    let tile = match tile {
        Some(s) => s.clone(),
        None => {
            return Err(err_missing("tile", "show_on"));
        },
    };
    let m = ShowOn { tile };
    proof {
        match show_on_spec(fs) {
            Ok(v) => {
                assert(m@ =~= v);
            },
            Err(_) => {
                assert(false);
            },
        }
    }
    Ok(m)
}

/// True of a slot holding the first occurrence of a numeric field.
pub open spec fn num_slot(slot: Option<u32>, fields: Seq<Field>, i: int, name: Seq<char>) -> bool {
    match slot {
        Some(v) => lkp(fields, name) == Some(Value::UInt(v)),
        None => lkp(fields, name) == lkp(fields.skip(i), name),
    }
}

/// True of a slot holding the first occurrence of a record field.
pub open spec fn rec_slot(slot: Option<&Vec<Field>>, fields: Seq<Field>, i: int, name: Seq<char>) -> bool {
    match slot {
        Some(v) => lkp(fields, name) == Some(Value::Record(*v)),
        None => lkp(fields, name) == lkp(fields.skip(i), name),
    }
}

/// True of a slot holding the first occurrence of a list field.
pub open spec fn list_slot(slot: Option<&Vec<Value>>, fields: Seq<Field>, i: int, name: Seq<char>) -> bool {
    match slot {
        Some(v) => lkp(fields, name) == Some(Value::List(*v)),
        None => lkp(fields, name) == lkp(fields.skip(i), name),
    }
}

/// The images of a sequence of model values.
pub open spec fn views_of<T: View>(s: Seq<T>) -> Seq<T::V> {
    s.map_values(|x: T| x@)
}

/// How far an element loop has carried a list decode: either the
/// remainder decodes and the whole equals what was accumulated followed
/// by it, or the remainder fails and the whole fails the same way.
pub open spec fn list_progress<T: View>(
    full: Result<Seq<T::V>, ErrorSpec>,
    remainder: Result<Seq<T::V>, ErrorSpec>,
    acc: Seq<T>,
) -> bool {
    match remainder {
        Ok(rest) => full == Ok::<Seq<T::V>, ErrorSpec>(views_of(acc) + rest),
        Err(e) => full == Err::<Seq<T::V>, ErrorSpec>(e),
    }
}

proof fn resource_names_distinct()
    ensures
        "language"@ != "scale"@,
        "language"@ != "dx_feature_level"@,
        "scale"@ != "dx_feature_level"@,
{
    reveal_strlit("language");
    reveal_strlit("scale");
    reveal_strlit("dx_feature_level");
    assert("language"@.len() == 8);
    assert("scale"@.len() == 5);
    assert("dx_feature_level"@.len() == 16);
}

/// The closed schema of one `resource` field: two optional text fields
/// and an optional numeric scale.
pub open spec fn resource_fault(f: Field) -> Option<ErrorSpec> {
    if f.name@ == "language"@ || f.name@ == "dx_feature_level"@ {
        if f.value is Str {
            None
        } else {
            Some(ErrorSpec::TypeMismatch { field: f.name@, container: "resource"@ })
        }
    } else if f.name@ == "scale"@ {
        if f.value is UInt {
            None
        } else {
            Some(ErrorSpec::TypeMismatch { field: f.name@, container: "resource"@ })
        }
    } else {
        Some(ErrorSpec::UnknownField { field: f.name@, container: "resource"@ })
    }
}

/// The first fault among the fields of a `resource` record.
pub open spec fn resource_scan(fields: Seq<Field>) -> Option<ErrorSpec>
    decreases fields.len(),
{
    if fields.len() == 0 {
        None
    } else {
        match resource_fault(fields[0]) {
            Some(e) => Some(e),
            None => resource_scan(fields.drop_first()),
        }
    }
}

/// Strict decode of a `resource` record: every field is optional.
pub open spec fn resource_spec(fields: Seq<Field>) -> Result<ResourceV, ErrorSpec> {
    match resource_scan(fields) {
        Some(e) => Err(e),
        None => Ok(
            ResourceV {
                language: opt_str_v(lkp(fields, "language"@)),
                scale: opt_num_v(lkp(fields, "scale"@)),
                dx_feature_level: opt_str_v(lkp(fields, "dx_feature_level"@)),
            },
        ),
    }
}

/// Decodes a `resource` record.
pub fn decode_resource(fields: &Vec<Field>) -> (r: Result<Resource, Error>)
    ensures
        outcome_eq(r, resource_spec(fields@)),
{
    let ghost fs = fields@;
    proof {
        assert(fs.skip(0) =~= fs);
    }
    let mut language: Option<&String> = None;
    let mut scale: Option<u32> = None;
    let mut dx_feature_level: Option<&String> = None;
    let n = fields.len();
    let mut i: usize = 0;
    while i < n
        invariant
            i <= n,
            n == fields.len(),
            fs == fields@,
            resource_scan(fs) == resource_scan(fs.skip(i as int)),
            str_slot(language, fs, i as int, "language"@),
            num_slot(scale, fs, i as int, "scale"@),
            str_slot(dx_feature_level, fs, i as int, "dx_feature_level"@),
        decreases n - i,
    {
        let f = &fields[i];
        proof {
            resource_names_distinct();
            assert(fs.skip(i as int)[0] == fs[i as int]);
            assert(fs.skip(i as int).drop_first() =~= fs.skip(i as int + 1));
        }
        if name_is(&f.name, "language") {
            match &f.value {
                Value::Str(s) => {
                    if language.is_none() {
                        language = Some(s);
                    }
                },
                _ => {
                    return Err(err_mismatch(&f.name, "resource"));
                },
            }
        } else if name_is(&f.name, "scale") {
            match &f.value {
                Value::UInt(v) => {
                    if scale.is_none() {
                        scale = Some(*v);
                    }
                },
                _ => {
                    return Err(err_mismatch(&f.name, "resource"));
                },
            }
        } else if name_is(&f.name, "dx_feature_level") {
            match &f.value {
                Value::Str(s) => {
                    if dx_feature_level.is_none() {
                        dx_feature_level = Some(s);
                    }
                },
                _ => {
                    return Err(err_mismatch(&f.name, "resource"));
                },
            }
        } else {
            return Err(err_unknown(&f.name, "resource"));
        }
        i += 1;
    }
    proof {
        assert(fs.skip(n as int) =~= Seq::<Field>::empty());
    }
    let language = match language {
        Some(s) => Some(s.clone()),
        None => None,
    };
    let dx_feature_level = match dx_feature_level {
        Some(s) => Some(s.clone()),
        None => None,
    };
    let m = Resource { language, scale, dx_feature_level };
    proof {
        match resource_spec(fs) {
            Ok(v) => {
                assert(m@ =~= v);
            },
            Err(_) => {
                assert(false);
            },
        }
    }
    Ok(m)
}

/// One element of the `show_on` list of a `show_name_on_tiles` record.
pub open spec fn show_on_item_spec(v: Value) -> Result<ShowOnV, ErrorSpec> {
    match v {
        Value::Record(fs) => show_on_spec(fs@),
        _ => Err(ErrorSpec::TypeMismatch { field: "show_on"@, container: "show_name_on_tiles"@ }),
    }
}

/// Strict decode of the `show_on` list, in document order; the first
/// failing element decides the error.
pub open spec fn show_on_list_spec(vals: Seq<Value>) -> Result<Seq<ShowOnV>, ErrorSpec>
    decreases vals.len(),
{
    if vals.len() == 0 {
        Ok(Seq::<ShowOnV>::empty())
    } else {
        match show_on_item_spec(vals[0]) {
            Err(e) => Err(e),
            Ok(x) => match show_on_list_spec(vals.drop_first()) {
                Err(e) => Err(e),
                Ok(rest) => Ok(seq![x] + rest),
            },
        }
    }
}

/// The closed schema of one `show_name_on_tiles` field.
pub open spec fn show_name_on_tiles_fault(f: Field) -> Option<ErrorSpec> {
    if f.name@ == "show_on"@ {
        if f.value is List {
            None
        } else {
            Some(ErrorSpec::TypeMismatch { field: f.name@, container: "show_name_on_tiles"@ })
        }
    } else {
        Some(ErrorSpec::UnknownField { field: f.name@, container: "show_name_on_tiles"@ })
    }
}

/// The first fault among the fields of a `show_name_on_tiles` record.
pub open spec fn show_name_on_tiles_scan(fields: Seq<Field>) -> Option<ErrorSpec>
    decreases fields.len(),
{
    if fields.len() == 0 {
        None
    } else {
        match show_name_on_tiles_fault(fields[0]) {
            Some(e) => Some(e),
            None => show_name_on_tiles_scan(fields.drop_first()),
        }
    }
}

/// Strict decode of a `show_name_on_tiles` record: one sequence field, empty
/// when absent.
pub open spec fn show_name_on_tiles_spec(fields: Seq<Field>) -> Result<Seq<ShowOnV>, ErrorSpec> {
    match show_name_on_tiles_scan(fields) {
        Some(e) => Err(e),
        None => show_on_list_spec(list_v(lkp(fields, "show_on"@))),
    }
}

/// Decodes a `show_name_on_tiles` record.
pub fn decode_show_name_on_tiles(fields: &Vec<Field>) -> (r: Result<ShowNameOnTiles, Error>)
    ensures
        outcome_eq(r, show_name_on_tiles_spec(fields@)),
{
    let ghost fs = fields@;
    proof {
        assert(fs.skip(0) =~= fs);
    }
    let mut items: Option<&Vec<Value>> = None;
    let n = fields.len();
    let mut i: usize = 0;
    while i < n
        invariant
            i <= n,
            n == fields.len(),
            fs == fields@,
            show_name_on_tiles_scan(fs) == show_name_on_tiles_scan(fs.skip(i as int)),
            list_slot(items, fs, i as int, "show_on"@),
        decreases n - i,
    {
        let f = &fields[i];
        proof {
            assert(fs.skip(i as int)[0] == fs[i as int]);
            assert(fs.skip(i as int).drop_first() =~= fs.skip(i as int + 1));
        }
        if name_is(&f.name, "show_on") {
            match &f.value {
                Value::List(vs) => {
                    if items.is_none() {
                        items = Some(vs);
                    }
                },
                _ => {
                    return Err(err_mismatch(&f.name, "show_name_on_tiles"));
                },
            }
        } else {
            return Err(err_unknown(&f.name, "show_name_on_tiles"));
        }
        i += 1;
    }
    proof {
        assert(fs.skip(n as int) =~= Seq::<Field>::empty());
    }
    let mut out: Vec<ShowOn> = Vec::new();
    match items {
        None => {
            let w = ShowNameOnTiles { show_on: out };
            proof {
                assert(w@ =~= Seq::<ShowOnV>::empty());
            }
            Ok(w)
        },
        Some(vals) => {
            let ghost vs = vals@;
            proof {
                assert(vs.skip(0) =~= vs);
            }
            let m = vals.len();
            let mut j: usize = 0;
            while j < m
                invariant
                    j <= m,
                    m == vals.len(),
                    vs == vals@,
                    fs == fields@,
                    show_name_on_tiles_scan(fs) == None::<ErrorSpec>,
                    lkp(fs, "show_on"@) == Some(Value::List(*vals)),
                    list_progress(show_on_list_spec(vs), show_on_list_spec(vs.skip(j as int)), out@),
                decreases m - j,
            {
                proof {
                    assert(vs.skip(j as int)[0] == vs[j as int]);
                    assert(vs.skip(j as int).drop_first() =~= vs.skip(j as int + 1));
                }
                let item = match &vals[j] {
                    Value::Record(rf) => decode_show_on(rf),
                    _ => Err(err_mismatch_lit("show_on", "show_name_on_tiles")),
                };
                match item {
                    Ok(x) => {
                        let ghost prev = out@;
                        out.push(x);
                        proof {
                            assert(views_of(out@) =~= views_of(prev).push(x@));
                            match show_on_list_spec(vs.skip(j as int + 1)) {
                                Ok(rest) => {
                                    assert(views_of(prev) + (seq![x@] + rest) =~= views_of(out@)
                                        + rest);
                                },
                                Err(_) => {},
                            }
                        }
                    },
                    Err(e) => {
                        return Err(e);
                    },
                }
                j += 1;
            }
            proof {
                assert(vs.skip(m as int) =~= Seq::<Value>::empty());
                assert(views_of(out@) + Seq::<ShowOnV>::empty() =~= views_of(out@));
            }
            let w = ShowNameOnTiles { show_on: out };
            proof {
                assert(w@ =~= views_of(w.show_on@));
            }
            Ok(w)
        },
    }
}

/// One element of the `resource` list of a `resources` record.
pub open spec fn resource_item_spec(v: Value) -> Result<ResourceV, ErrorSpec> {
    match v {
        Value::Record(fs) => resource_spec(fs@),
        _ => Err(ErrorSpec::TypeMismatch { field: "resource"@, container: "resources"@ }),
    }
}

/// Strict decode of the `resource` list, in document order; the first
/// failing element decides the error.
pub open spec fn resource_list_spec(vals: Seq<Value>) -> Result<Seq<ResourceV>, ErrorSpec>
    decreases vals.len(),
{
    if vals.len() == 0 {
        Ok(Seq::<ResourceV>::empty())
    } else {
        match resource_item_spec(vals[0]) {
            Err(e) => Err(e),
            Ok(x) => match resource_list_spec(vals.drop_first()) {
                Err(e) => Err(e),
                Ok(rest) => Ok(seq![x] + rest),
            },
        }
    }
}

/// The closed schema of one `resources` field.
pub open spec fn resources_fault(f: Field) -> Option<ErrorSpec> {
    if f.name@ == "resource"@ {
        if f.value is List {
            None
        } else {
            Some(ErrorSpec::TypeMismatch { field: f.name@, container: "resources"@ })
        }
    } else {
        Some(ErrorSpec::UnknownField { field: f.name@, container: "resources"@ })
    }
}

/// The first fault among the fields of a `resources` record.
pub open spec fn resources_scan(fields: Seq<Field>) -> Option<ErrorSpec>
    decreases fields.len(),
{
    if fields.len() == 0 {
        None
    } else {
        match resources_fault(fields[0]) {
            Some(e) => Some(e),
            None => resources_scan(fields.drop_first()),
        }
    }
}

/// Strict decode of a `resources` record: one sequence field, empty
/// when absent.
pub open spec fn resources_spec(fields: Seq<Field>) -> Result<Seq<ResourceV>, ErrorSpec> {
    match resources_scan(fields) {
        Some(e) => Err(e),
        None => resource_list_spec(list_v(lkp(fields, "resource"@))),
    }
}

/// Decodes a `resources` record.
pub fn decode_resources(fields: &Vec<Field>) -> (r: Result<Resources, Error>)
    ensures
        outcome_eq(r, resources_spec(fields@)),
{
    let ghost fs = fields@;
    proof {
        assert(fs.skip(0) =~= fs);
    }
    let mut items: Option<&Vec<Value>> = None;
    let n = fields.len();
    let mut i: usize = 0;
    while i < n
        invariant
            i <= n,
            n == fields.len(),
            fs == fields@,
            resources_scan(fs) == resources_scan(fs.skip(i as int)),
            list_slot(items, fs, i as int, "resource"@),
        decreases n - i,
    {
        let f = &fields[i];
        proof {
            assert(fs.skip(i as int)[0] == fs[i as int]);
            assert(fs.skip(i as int).drop_first() =~= fs.skip(i as int + 1));
        }
        if name_is(&f.name, "resource") {
            match &f.value {
                Value::List(vs) => {
                    if items.is_none() {
                        items = Some(vs);
                    }
                },
                _ => {
                    return Err(err_mismatch(&f.name, "resources"));
                },
            }
        } else {
            return Err(err_unknown(&f.name, "resources"));
        }
        i += 1;
    }
    proof {
        assert(fs.skip(n as int) =~= Seq::<Field>::empty());
    }
    let mut out: Vec<Resource> = Vec::new();
    match items {
        None => {
            let w = Resources { resource: out };
            proof {
                assert(w@ =~= Seq::<ResourceV>::empty());
            }
            Ok(w)
        },
        Some(vals) => {
            let ghost vs = vals@;
            proof {
                assert(vs.skip(0) =~= vs);
            }
            let m = vals.len();
            let mut j: usize = 0;
            while j < m
                invariant
                    j <= m,
                    m == vals.len(),
                    vs == vals@,
                    fs == fields@,
                    resources_scan(fs) == None::<ErrorSpec>,
                    lkp(fs, "resource"@) == Some(Value::List(*vals)),
                    list_progress(resource_list_spec(vs), resource_list_spec(vs.skip(j as int)), out@),
                decreases m - j,
            {
                proof {
                    assert(vs.skip(j as int)[0] == vs[j as int]);
                    assert(vs.skip(j as int).drop_first() =~= vs.skip(j as int + 1));
                }
                let item = match &vals[j] {
                    Value::Record(rf) => decode_resource(rf),
                    _ => Err(err_mismatch_lit("resource", "resources")),
                };
                match item {
                    Ok(x) => {
                        let ghost prev = out@;
                        out.push(x);
                        proof {
                            assert(views_of(out@) =~= views_of(prev).push(x@));
                            match resource_list_spec(vs.skip(j as int + 1)) {
                                Ok(rest) => {
                                    assert(views_of(prev) + (seq![x@] + rest) =~= views_of(out@)
                                        + rest);
                                },
                                Err(_) => {},
                            }
                        }
                    },
                    Err(e) => {
                        return Err(e);
                    },
                }
                j += 1;
            }
            proof {
                assert(vs.skip(m as int) =~= Seq::<Value>::empty());
                assert(views_of(out@) + Seq::<ResourceV>::empty() =~= views_of(out@));
            }
            let w = Resources { resource: out };
            proof {
                assert(w@ =~= views_of(w.resource@));
            }
            Ok(w)
        },
    }
}

/// One element of the `target_device_family` list of a `dependencies` record.
pub open spec fn target_device_family_item_spec(v: Value) -> Result<TargetDeviceFamilyV, ErrorSpec> {
    match v {
        Value::Record(fs) => target_device_family_spec(fs@),
        _ => Err(ErrorSpec::TypeMismatch { field: "target_device_family"@, container: "dependencies"@ }),
    }
}

/// Strict decode of the `target_device_family` list, in document order; the first
/// failing element decides the error.
pub open spec fn target_device_family_list_spec(vals: Seq<Value>) -> Result<Seq<TargetDeviceFamilyV>, ErrorSpec>
    decreases vals.len(),
{
    if vals.len() == 0 {
        Ok(Seq::<TargetDeviceFamilyV>::empty())
    } else {
        match target_device_family_item_spec(vals[0]) {
            Err(e) => Err(e),
            Ok(x) => match target_device_family_list_spec(vals.drop_first()) {
                Err(e) => Err(e),
                Ok(rest) => Ok(seq![x] + rest),
            },
        }
    }
}

/// The closed schema of one `dependencies` field.
pub open spec fn dependencies_fault(f: Field) -> Option<ErrorSpec> {
    if f.name@ == "target_device_family"@ {
        if f.value is List {
            None
        } else {
            Some(ErrorSpec::TypeMismatch { field: f.name@, container: "dependencies"@ })
        }
    } else {
        Some(ErrorSpec::UnknownField { field: f.name@, container: "dependencies"@ })
    }
}

/// The first fault among the fields of a `dependencies` record.
pub open spec fn dependencies_scan(fields: Seq<Field>) -> Option<ErrorSpec>
    decreases fields.len(),
{
    if fields.len() == 0 {
        None
    } else {
        match dependencies_fault(fields[0]) {
            Some(e) => Some(e),
            None => dependencies_scan(fields.drop_first()),
        }
    }
}

/// Strict decode of a `dependencies` record: one sequence field, empty
/// when absent.
pub open spec fn dependencies_spec(fields: Seq<Field>) -> Result<Seq<TargetDeviceFamilyV>, ErrorSpec> {
    match dependencies_scan(fields) {
        Some(e) => Err(e),
        None => target_device_family_list_spec(list_v(lkp(fields, "target_device_family"@))),
    }
}

/// Decodes a `dependencies` record.
pub fn decode_dependencies(fields: &Vec<Field>) -> (r: Result<Dependencies, Error>)
    ensures
        outcome_eq(r, dependencies_spec(fields@)),
{
    let ghost fs = fields@;
    proof {
        assert(fs.skip(0) =~= fs);
    }
    let mut items: Option<&Vec<Value>> = None;
    let n = fields.len();
    let mut i: usize = 0;
    while i < n
        invariant
            i <= n,
            n == fields.len(),
            fs == fields@,
            dependencies_scan(fs) == dependencies_scan(fs.skip(i as int)),
            list_slot(items, fs, i as int, "target_device_family"@),
        decreases n - i,
    {
        let f = &fields[i];
        proof {
            assert(fs.skip(i as int)[0] == fs[i as int]);
            assert(fs.skip(i as int).drop_first() =~= fs.skip(i as int + 1));
        }
        if name_is(&f.name, "target_device_family") {
            match &f.value {
                Value::List(vs) => {
                    if items.is_none() {
                        items = Some(vs);
                    }
                },
                _ => {
                    return Err(err_mismatch(&f.name, "dependencies"));
                },
            }
        } else {
            return Err(err_unknown(&f.name, "dependencies"));
        }
        i += 1;
    }
    proof {
        assert(fs.skip(n as int) =~= Seq::<Field>::empty());
    }
    let mut out: Vec<TargetDeviceFamily> = Vec::new();
    match items {
        None => {
            let w = Dependencies { target_device_family: out };
            proof {
                assert(w@ =~= Seq::<TargetDeviceFamilyV>::empty());
            }
            Ok(w)
        },
        Some(vals) => {
            let ghost vs = vals@;
            proof {
                assert(vs.skip(0) =~= vs);
            }
            let m = vals.len();
            let mut j: usize = 0;
            while j < m
                invariant
                    j <= m,
                    m == vals.len(),
                    vs == vals@,
                    fs == fields@,
                    dependencies_scan(fs) == None::<ErrorSpec>,
                    lkp(fs, "target_device_family"@) == Some(Value::List(*vals)),
                    list_progress(target_device_family_list_spec(vs), target_device_family_list_spec(vs.skip(j as int)), out@),
                decreases m - j,
            {
                proof {
                    assert(vs.skip(j as int)[0] == vs[j as int]);
                    assert(vs.skip(j as int).drop_first() =~= vs.skip(j as int + 1));
                }
                let item = match &vals[j] {
                    Value::Record(rf) => decode_target_device_family(rf),
                    _ => Err(err_mismatch_lit("target_device_family", "dependencies")),
                };
                match item {
                    Ok(x) => {
                        let ghost prev = out@;
                        out.push(x);
                        proof {
                            assert(views_of(out@) =~= views_of(prev).push(x@));
                            match target_device_family_list_spec(vs.skip(j as int + 1)) {
                                Ok(rest) => {
                                    assert(views_of(prev) + (seq![x@] + rest) =~= views_of(out@)
                                        + rest);
                                },
                                Err(_) => {},
                            }
                        }
                    },
                    Err(e) => {
                        return Err(e);
                    },
                }
                j += 1;
            }
            proof {
                assert(vs.skip(m as int) =~= Seq::<Value>::empty());
                assert(views_of(out@) + Seq::<TargetDeviceFamilyV>::empty() =~= views_of(out@));
            }
            let w = Dependencies { target_device_family: out };
            proof {
                assert(w@ =~= views_of(w.target_device_family@));
            }
            Ok(w)
        },
    }
}

proof fn default_tile_names_distinct()
    ensures
        "short_name"@ != "logo_71x71"@,
        "short_name"@ != "logo_310x310"@,
        "short_name"@ != "logo_310x150"@,
        "short_name"@ != "show_names_on_tiles"@,
        "logo_71x71"@ != "logo_310x310"@,
        "logo_71x71"@ != "logo_310x150"@,
        "logo_71x71"@ != "show_names_on_tiles"@,
        "logo_310x310"@ != "logo_310x150"@,
        "logo_310x310"@ != "show_names_on_tiles"@,
        "logo_310x150"@ != "show_names_on_tiles"@,
{
    reveal_strlit("short_name");
    reveal_strlit("logo_71x71");
    reveal_strlit("logo_310x310");
    reveal_strlit("logo_310x150");
    reveal_strlit("show_names_on_tiles");
    assert("short_name"@.len() == 10);
    assert("logo_71x71"@.len() == 10);
    assert("logo_310x310"@.len() == 12);
    assert("logo_310x150"@.len() == 12);
    assert("show_names_on_tiles"@.len() == 19);
    assert("short_name"@[0] == 's');
    assert("logo_71x71"@[0] == 'l');
    assert("logo_310x310"@[9] == '3');
    assert("logo_310x150"@[9] == '1');
}

/// The closed schema of one `default_tile` field.
pub open spec fn default_tile_fault(f: Field) -> Option<ErrorSpec> {
    if f.name@ == "short_name"@ || f.name@ == "logo_71x71"@ || f.name@ == "logo_310x310"@
        || f.name@ == "logo_310x150"@ {
        if f.value is Str {
            None
        } else {
            Some(ErrorSpec::TypeMismatch { field: f.name@, container: "default_tile"@ })
        }
    } else if f.name@ == "show_names_on_tiles"@ {
        if f.value is Record {
            None
        } else {
            Some(ErrorSpec::TypeMismatch { field: f.name@, container: "default_tile"@ })
        }
    } else {
        Some(ErrorSpec::UnknownField { field: f.name@, container: "default_tile"@ })
    }
}

/// The first fault among the fields of a `default_tile` record.
pub open spec fn default_tile_scan(fields: Seq<Field>) -> Option<ErrorSpec>
    decreases fields.len(),
{
    if fields.len() == 0 {
        None
    } else {
        match default_tile_fault(fields[0]) {
            Some(e) => Some(e),
            None => default_tile_scan(fields.drop_first()),
        }
    }
}

/// Strict decode of a `default_tile` record: four optional text fields
/// and one required nested record.
pub open spec fn default_tile_spec(fields: Seq<Field>) -> Result<DefaultTileV, ErrorSpec> {
    match default_tile_scan(fields) {
        Some(e) => Err(e),
        None => if lkp(fields, "show_names_on_tiles"@) is None {
            Err(
                ErrorSpec::MissingRequiredField {
                    field: "show_names_on_tiles"@,
                    container: "default_tile"@,
                },
            )
        } else {
            match show_name_on_tiles_spec(rec_v(lkp(fields, "show_names_on_tiles"@))) {
                Err(e) => Err(e),
                Ok(sn) => Ok(
                    DefaultTileV {
                        short_name: opt_str_v(lkp(fields, "short_name"@)),
                        logo_71x71: opt_str_v(lkp(fields, "logo_71x71"@)),
                        logo_310x310: opt_str_v(lkp(fields, "logo_310x310"@)),
                        logo_310x150: opt_str_v(lkp(fields, "logo_310x150"@)),
                        show_names_on_tiles: sn,
                    },
                ),
            }
        },
    }
}

/// Decodes a `default_tile` record.
pub fn decode_default_tile(fields: &Vec<Field>) -> (r: Result<DefaultTile, Error>)
    ensures
        outcome_eq(r, default_tile_spec(fields@)),
{
    let ghost fs = fields@;
    proof {
        assert(fs.skip(0) =~= fs);
    }
    let mut short_name: Option<&String> = None;
    let mut logo_71x71: Option<&String> = None;
    let mut logo_310x310: Option<&String> = None;
    let mut logo_310x150: Option<&String> = None;
    let mut show_names: Option<&Vec<Field>> = None;
    let n = fields.len();
    let mut i: usize = 0;
    while i < n
        invariant
            i <= n,
            n == fields.len(),
            fs == fields@,
            default_tile_scan(fs) == default_tile_scan(fs.skip(i as int)),
            str_slot(short_name, fs, i as int, "short_name"@),
            str_slot(logo_71x71, fs, i as int, "logo_71x71"@),
            str_slot(logo_310x310, fs, i as int, "logo_310x310"@),
            str_slot(logo_310x150, fs, i as int, "logo_310x150"@),
            rec_slot(show_names, fs, i as int, "show_names_on_tiles"@),
        decreases n - i,
    {
        let f = &fields[i];
        proof {
            default_tile_names_distinct();
            assert(fs.skip(i as int)[0] == fs[i as int]);
            assert(fs.skip(i as int).drop_first() =~= fs.skip(i as int + 1));
        }
        if name_is(&f.name, "short_name") {
            match &f.value {
                Value::Str(s) => {
                    if short_name.is_none() {
                        short_name = Some(s);
                    }
                },
                _ => {
                    return Err(err_mismatch(&f.name, "default_tile"));
                },
            }
        } else if name_is(&f.name, "logo_71x71") {
            match &f.value {
                Value::Str(s) => {
                    if logo_71x71.is_none() {
                        logo_71x71 = Some(s);
                    }
                },
                _ => {
                    return Err(err_mismatch(&f.name, "default_tile"));
                },
            }
        } else if name_is(&f.name, "logo_310x310") {
            match &f.value {
                Value::Str(s) => {
                    if logo_310x310.is_none() {
                        logo_310x310 = Some(s);
                    }
                },
                _ => {
                    return Err(err_mismatch(&f.name, "default_tile"));
                },
            }
        } else if name_is(&f.name, "logo_310x150") {
            match &f.value {
                Value::Str(s) => {
                    if logo_310x150.is_none() {
                        logo_310x150 = Some(s);
                    }
                },
                _ => {
                    return Err(err_mismatch(&f.name, "default_tile"));
                },
            }
        } else if name_is(&f.name, "show_names_on_tiles") {
            match &f.value {
                Value::Record(rf) => {
                    if show_names.is_none() {
                        show_names = Some(rf);
                    }
                },
                _ => {
                    return Err(err_mismatch(&f.name, "default_tile"));
                },
            }
        } else {
            return Err(err_unknown(&f.name, "default_tile"));
        }
        i += 1;
    }
    proof {
        assert(fs.skip(n as int) =~= Seq::<Field>::empty());
    }
    let show_names_on_tiles = match show_names {
        Some(rf) => match decode_show_name_on_tiles(rf) {
            Ok(x) => x,
            Err(e) => {
                return Err(e);
            },
        },
        None => {
            return Err(err_missing("show_names_on_tiles", "default_tile"));
        },
    };
    let short_name = match short_name {
        Some(s) => Some(s.clone()),
        None => None,
    };
    let logo_71x71 = match logo_71x71 {
        Some(s) => Some(s.clone()),
        None => None,
    };
    let logo_310x310 = match logo_310x310 {
        Some(s) => Some(s.clone()),
        None => None,
    };
    let logo_310x150 = match logo_310x150 {
        Some(s) => Some(s.clone()),
        None => None,
    };
    let m = DefaultTile { short_name, logo_71x71, logo_310x310, logo_310x150, show_names_on_tiles };
    proof {
        match default_tile_spec(fs) {
            Ok(v) => {
                assert(m@ =~= v);
            },
            Err(_) => {
                assert(false);
            },
        }
    }
    Ok(m)
}

proof fn visual_elements_names_distinct()
    ensures
        "display_name"@ != "description"@,
        "display_name"@ != "background_color"@,
        "display_name"@ != "logo_150x150"@,
        "display_name"@ != "logo_44x44"@,
        "display_name"@ != "default_tile"@,
        "display_name"@ != "splash_screen"@,
        "display_name"@ != "lock_screen"@,
        "description"@ != "background_color"@,
        "description"@ != "logo_150x150"@,
        "description"@ != "logo_44x44"@,
        "description"@ != "default_tile"@,
        "description"@ != "splash_screen"@,
        "description"@ != "lock_screen"@,
        "background_color"@ != "logo_150x150"@,
        "background_color"@ != "logo_44x44"@,
        "background_color"@ != "default_tile"@,
        "background_color"@ != "splash_screen"@,
        "background_color"@ != "lock_screen"@,
        "logo_150x150"@ != "logo_44x44"@,
        "logo_150x150"@ != "default_tile"@,
        "logo_150x150"@ != "splash_screen"@,
        "logo_150x150"@ != "lock_screen"@,
        "logo_44x44"@ != "default_tile"@,
        "logo_44x44"@ != "splash_screen"@,
        "logo_44x44"@ != "lock_screen"@,
        "default_tile"@ != "splash_screen"@,
        "default_tile"@ != "lock_screen"@,
        "splash_screen"@ != "lock_screen"@,
{
    reveal_strlit("display_name");
    reveal_strlit("description");
    reveal_strlit("background_color");
    reveal_strlit("logo_150x150");
    reveal_strlit("logo_44x44");
    reveal_strlit("default_tile");
    reveal_strlit("splash_screen");
    reveal_strlit("lock_screen");
    assert("display_name"@.len() == 12);
    assert("description"@.len() == 11);
    assert("background_color"@.len() == 16);
    assert("logo_150x150"@.len() == 12);
    assert("logo_44x44"@.len() == 10);
    assert("default_tile"@.len() == 12);
    assert("splash_screen"@.len() == 13);
    assert("lock_screen"@.len() == 11);
    assert("display_name"@[0] == 'd');
    assert("logo_150x150"@[0] == 'l');
    assert("default_tile"@[1] == 'e');
    assert("display_name"@[1] == 'i');
    assert("logo_150x150"@[1] == 'o');
    assert("description"@[0] == 'd');
    assert("lock_screen"@[0] == 'l');
}

/// The closed schema of one `visual_elements` field.
pub open spec fn visual_elements_fault(f: Field) -> Option<ErrorSpec> {
    if f.name@ == "display_name"@ || f.name@ == "description"@ || f.name@ == "background_color"@
        || f.name@ == "logo_150x150"@ || f.name@ == "logo_44x44"@ {
        if f.value is Str {
            None
        } else {
            Some(ErrorSpec::TypeMismatch { field: f.name@, container: "visual_elements"@ })
        }
    } else if f.name@ == "default_tile"@ || f.name@ == "splash_screen"@ || f.name@
        == "lock_screen"@ {
        if f.value is Record {
            None
        } else {
            Some(ErrorSpec::TypeMismatch { field: f.name@, container: "visual_elements"@ })
        }
    } else {
        Some(ErrorSpec::UnknownField { field: f.name@, container: "visual_elements"@ })
    }
}

/// The first fault among the fields of a `visual_elements` record.
pub open spec fn visual_elements_scan(fields: Seq<Field>) -> Option<ErrorSpec>
    decreases fields.len(),
{
    if fields.len() == 0 {
        None
    } else {
        match visual_elements_fault(fields[0]) {
            Some(e) => Some(e),
            None => visual_elements_scan(fields.drop_first()),
        }
    }
}

/// Decode of the optional `default_tile` child of `visual_elements`.
pub open spec fn opt_default_tile_spec(v: Option<Value>) -> Result<Option<DefaultTileV>, ErrorSpec> {
    match v {
        None => Ok(None),
        Some(Value::Record(fs)) => match default_tile_spec(fs@) {
            Err(e) => Err(e),
            Ok(t) => Ok(Some(t)),
        },
        Some(_) => arbitrary(),
    }
}

/// Decode of the optional `splash_screen` child of `visual_elements`.
pub open spec fn opt_splash_screen_spec(v: Option<Value>) -> Result<
    Option<SplashScreenV>,
    ErrorSpec,
> {
    match v {
        None => Ok(None),
        Some(Value::Record(fs)) => match splash_screen_spec(fs@) {
            Err(e) => Err(e),
            Ok(t) => Ok(Some(t)),
        },
        Some(_) => arbitrary(),
    }
}

/// Decode of the optional `lock_screen` child of `visual_elements`.
pub open spec fn opt_lock_screen_spec(v: Option<Value>) -> Result<Option<LockScreenV>, ErrorSpec> {
    match v {
        None => Ok(None),
        Some(Value::Record(fs)) => match lock_screen_spec(fs@) {
            Err(e) => Err(e),
            Ok(t) => Ok(Some(t)),
        },
        Some(_) => arbitrary(),
    }
}

/// Strict decode of a `visual_elements` record: five required text
/// fields and three optional nested records.
pub open spec fn visual_elements_spec(fields: Seq<Field>) -> Result<VisualElementsV, ErrorSpec> {
    match visual_elements_scan(fields) {
        Some(e) => Err(e),
        None => if lkp(fields, "display_name"@) is None {
            Err(
                ErrorSpec::MissingRequiredField {
                    field: "display_name"@,
                    container: "visual_elements"@,
                },
            )
        } else if lkp(fields, "description"@) is None {
            Err(
                ErrorSpec::MissingRequiredField {
                    field: "description"@,
                    container: "visual_elements"@,
                },
            )
        } else if lkp(fields, "background_color"@) is None {
            Err(
                ErrorSpec::MissingRequiredField {
                    field: "background_color"@,
                    container: "visual_elements"@,
                },
            )
        } else if lkp(fields, "logo_150x150"@) is None {
            Err(
                ErrorSpec::MissingRequiredField {
                    field: "logo_150x150"@,
                    container: "visual_elements"@,
                },
            )
        } else if lkp(fields, "logo_44x44"@) is None {
            Err(
                ErrorSpec::MissingRequiredField {
                    field: "logo_44x44"@,
                    container: "visual_elements"@,
                },
            )
        } else {
            match opt_default_tile_spec(lkp(fields, "default_tile"@)) {
                Err(e) => Err(e),
                Ok(dt) => match opt_splash_screen_spec(lkp(fields, "splash_screen"@)) {
                    Err(e) => Err(e),
                    Ok(sp) => match opt_lock_screen_spec(lkp(fields, "lock_screen"@)) {
                        Err(e) => Err(e),
                        Ok(lk) => Ok(
                            VisualElementsV {
                                display_name: str_v(lkp(fields, "display_name"@)),
                                description: str_v(lkp(fields, "description"@)),
                                background_color: str_v(lkp(fields, "background_color"@)),
                                logo_150x150: str_v(lkp(fields, "logo_150x150"@)),
                                logo_44x44: str_v(lkp(fields, "logo_44x44"@)),
                                default_tile: dt,
                                splash_screen: sp,
                                lock_screen: lk,
                            },
                        ),
                    },
                },
            }
        },
    }
}

/// Decodes a `visual_elements` record.
#[verifier::rlimit(100)]
pub fn decode_visual_elements(fields: &Vec<Field>) -> (r: Result<VisualElements, Error>)
    ensures
        outcome_eq(r, visual_elements_spec(fields@)),
{
    let ghost fs = fields@;
    proof {
        assert(fs.skip(0) =~= fs);
    }
    let mut display_name: Option<&String> = None;
    let mut description: Option<&String> = None;
    let mut background_color: Option<&String> = None;
    let mut logo_150x150: Option<&String> = None;
    let mut logo_44x44: Option<&String> = None;
    let mut default_tile: Option<&Vec<Field>> = None;
    let mut splash_screen: Option<&Vec<Field>> = None;
    let mut lock_screen: Option<&Vec<Field>> = None;
    let n = fields.len();
    let mut i: usize = 0;
    while i < n
        invariant
            i <= n,
            n == fields.len(),
            fs == fields@,
            visual_elements_scan(fs) == visual_elements_scan(fs.skip(i as int)),
            str_slot(display_name, fs, i as int, "display_name"@),
            str_slot(description, fs, i as int, "description"@),
            str_slot(background_color, fs, i as int, "background_color"@),
            str_slot(logo_150x150, fs, i as int, "logo_150x150"@),
            str_slot(logo_44x44, fs, i as int, "logo_44x44"@),
            rec_slot(default_tile, fs, i as int, "default_tile"@),
            rec_slot(splash_screen, fs, i as int, "splash_screen"@),
            rec_slot(lock_screen, fs, i as int, "lock_screen"@),
        decreases n - i,
    {
        let f = &fields[i];
        proof {
            visual_elements_names_distinct();
            assert(fs.skip(i as int)[0] == fs[i as int]);
            assert(fs.skip(i as int).drop_first() =~= fs.skip(i as int + 1));
        }
        if name_is(&f.name, "display_name") {
            match &f.value {
                Value::Str(s) => {
                    if display_name.is_none() {
                        display_name = Some(s);
                    }
                },
                _ => {
                    return Err(err_mismatch(&f.name, "visual_elements"));
                },
            }
        } else if name_is(&f.name, "description") {
            match &f.value {
                Value::Str(s) => {
                    if description.is_none() {
                        description = Some(s);
                    }
                },
                _ => {
                    return Err(err_mismatch(&f.name, "visual_elements"));
                },
            }
        } else if name_is(&f.name, "background_color") {
            match &f.value {
                Value::Str(s) => {
                    if background_color.is_none() {
                        background_color = Some(s);
                    }
                },
                _ => {
                    return Err(err_mismatch(&f.name, "visual_elements"));
                },
            }
        } else if name_is(&f.name, "logo_150x150") {
            match &f.value {
                Value::Str(s) => {
                    if logo_150x150.is_none() {
                        logo_150x150 = Some(s);
                    }
                },
                _ => {
                    return Err(err_mismatch(&f.name, "visual_elements"));
                },
            }
        } else if name_is(&f.name, "logo_44x44") {
            match &f.value {
                Value::Str(s) => {
                    if logo_44x44.is_none() {
                        logo_44x44 = Some(s);
                    }
                },
                _ => {
                    return Err(err_mismatch(&f.name, "visual_elements"));
                },
            }
        } else if name_is(&f.name, "default_tile") {
            match &f.value {
                Value::Record(rf) => {
                    if default_tile.is_none() {
                        default_tile = Some(rf);
                    }
                },
                _ => {
                    return Err(err_mismatch(&f.name, "visual_elements"));
                },
            }
        } else if name_is(&f.name, "splash_screen") {
            match &f.value {
                Value::Record(rf) => {
                    if splash_screen.is_none() {
                        splash_screen = Some(rf);
                    }
                },
                _ => {
                    return Err(err_mismatch(&f.name, "visual_elements"));
                },
            }
        } else if name_is(&f.name, "lock_screen") {
            match &f.value {
                Value::Record(rf) => {
                    if lock_screen.is_none() {
                        lock_screen = Some(rf);
                    }
                },
                _ => {
                    return Err(err_mismatch(&f.name, "visual_elements"));
                },
            }
        } else {
            return Err(err_unknown(&f.name, "visual_elements"));
        }
        i += 1;
    }
    proof {
        assert(fs.skip(n as int) =~= Seq::<Field>::empty());
    }
    let display_name = match display_name {
        Some(s) => s.clone(),
        None => {
            return Err(err_missing("display_name", "visual_elements"));
        },
    };
    let description = match description {
        Some(s) => s.clone(),
        None => {
            return Err(err_missing("description", "visual_elements"));
        },
    };
    let background_color = match background_color {
        Some(s) => s.clone(),
        None => {
            return Err(err_missing("background_color", "visual_elements"));
        },
    };
    let logo_150x150 = match logo_150x150 {
        Some(s) => s.clone(),
        None => {
            return Err(err_missing("logo_150x150", "visual_elements"));
        },
    };
    let logo_44x44 = match logo_44x44 {
        Some(s) => s.clone(),
        None => {
            return Err(err_missing("logo_44x44", "visual_elements"));
        },
    };
    let default_tile = match default_tile {
        Some(rf) => match decode_default_tile(rf) {
            Ok(x) => Some(x),
            Err(e) => {
                return Err(e);
            },
        },
        None => None,
    };
    let splash_screen = match splash_screen {
        Some(rf) => match decode_splash_screen(rf) {
            Ok(x) => Some(x),
            Err(e) => {
                return Err(e);
            },
        },
        None => None,
    };
    let lock_screen = match lock_screen {
        Some(rf) => match decode_lock_screen(rf) {
            Ok(x) => Some(x),
            Err(e) => {
                return Err(e);
            },
        },
        None => None,
    };
    let m = VisualElements {
        display_name,
        description,
        background_color,
        logo_150x150,
        logo_44x44,
        default_tile,
        splash_screen,
        lock_screen,
    };
    proof {
        match visual_elements_spec(fs) {
            Ok(v) => {
                assert(m@ =~= v);
            },
            Err(_) => {
                assert(false);
            },
        }
    }
    Ok(m)
}

proof fn application_names_distinct()
    ensures
        "id"@ != "executable"@,
        "id"@ != "entry_point"@,
        "id"@ != "visual_elements"@,
        "executable"@ != "entry_point"@,
        "executable"@ != "visual_elements"@,
        "entry_point"@ != "visual_elements"@,
{
    reveal_strlit("id");
    reveal_strlit("executable");
    reveal_strlit("entry_point");
    reveal_strlit("visual_elements");
    assert("id"@.len() == 2);
    assert("executable"@.len() == 10);
    assert("entry_point"@.len() == 11);
    assert("visual_elements"@.len() == 15);
}

/// The closed schema of one `application` field.
pub open spec fn application_fault(f: Field) -> Option<ErrorSpec> {
    if f.name@ == "id"@ || f.name@ == "executable"@ || f.name@ == "entry_point"@ {
        if f.value is Str {
            None
        } else {
            Some(ErrorSpec::TypeMismatch { field: f.name@, container: "application"@ })
        }
    } else if f.name@ == "visual_elements"@ {
        if f.value is Record {
            None
        } else {
            Some(ErrorSpec::TypeMismatch { field: f.name@, container: "application"@ })
        }
    } else {
        Some(ErrorSpec::UnknownField { field: f.name@, container: "application"@ })
    }
}

/// The first fault among the fields of an `application` record.
pub open spec fn application_scan(fields: Seq<Field>) -> Option<ErrorSpec>
    decreases fields.len(),
{
    if fields.len() == 0 {
        None
    } else {
        match application_fault(fields[0]) {
            Some(e) => Some(e),
            None => application_scan(fields.drop_first()),
        }
    }
}

/// Strict decode of an `application` record: a required identifier, two
/// optional text fields and the required visual elements.
pub open spec fn application_spec(fields: Seq<Field>) -> Result<ApplicationV, ErrorSpec> {
    match application_scan(fields) {
        Some(e) => Err(e),
        None => if lkp(fields, "id"@) is None {
            Err(ErrorSpec::MissingRequiredField { field: "id"@, container: "application"@ })
        } else if lkp(fields, "visual_elements"@) is None {
            Err(
                ErrorSpec::MissingRequiredField {
                    field: "visual_elements"@,
                    container: "application"@,
                },
            )
        } else {
            match visual_elements_spec(rec_v(lkp(fields, "visual_elements"@))) {
                Err(e) => Err(e),
                Ok(ve) => Ok(
                    ApplicationV {
                        id: str_v(lkp(fields, "id"@)),
                        executable: opt_str_v(lkp(fields, "executable"@)),
                        entry_point: opt_str_v(lkp(fields, "entry_point"@)),
                        visual_elements: ve,
                    },
                ),
            }
        },
    }
}

/// Decodes an `application` record.
pub fn decode_application(fields: &Vec<Field>) -> (r: Result<Application, Error>)
    ensures
        outcome_eq(r, application_spec(fields@)),
{
    let ghost fs = fields@;
    proof {
        assert(fs.skip(0) =~= fs);
    }
    let mut id: Option<&String> = None;
    let mut executable: Option<&String> = None;
    let mut entry_point: Option<&String> = None;
    let mut visual: Option<&Vec<Field>> = None;
    let n = fields.len();
    let mut i: usize = 0;
    while i < n
        invariant
            i <= n,
            n == fields.len(),
            fs == fields@,
            application_scan(fs) == application_scan(fs.skip(i as int)),
            str_slot(id, fs, i as int, "id"@),
            str_slot(executable, fs, i as int, "executable"@),
            str_slot(entry_point, fs, i as int, "entry_point"@),
            rec_slot(visual, fs, i as int, "visual_elements"@),
        decreases n - i,
    {
        let f = &fields[i];
        proof {
            application_names_distinct();
            assert(fs.skip(i as int)[0] == fs[i as int]);
            assert(fs.skip(i as int).drop_first() =~= fs.skip(i as int + 1));
        }
        if name_is(&f.name, "id") {
            match &f.value {
                Value::Str(s) => {
                    if id.is_none() {
                        id = Some(s);
                    }
                },
                _ => {
                    return Err(err_mismatch(&f.name, "application"));
                },
            }
        } else if name_is(&f.name, "executable") {
            match &f.value {
                Value::Str(s) => {
                    if executable.is_none() {
                        executable = Some(s);
                    }
                },
                _ => {
                    return Err(err_mismatch(&f.name, "application"));
                },
            }
        } else if name_is(&f.name, "entry_point") {
            match &f.value {
                Value::Str(s) => {
                    if entry_point.is_none() {
                        entry_point = Some(s);
                    }
                },
                _ => {
                    return Err(err_mismatch(&f.name, "application"));
                },
            }
        } else if name_is(&f.name, "visual_elements") {
            match &f.value {
                Value::Record(rf) => {
                    if visual.is_none() {
                        visual = Some(rf);
                    }
                },
                _ => {
                    return Err(err_mismatch(&f.name, "application"));
                },
            }
        } else {
            return Err(err_unknown(&f.name, "application"));
        }
        i += 1;
    }
    proof {
        assert(fs.skip(n as int) =~= Seq::<Field>::empty());
    }
    let id = match id {
        Some(s) => s.clone(),
        None => {
            return Err(err_missing("id", "application"));
        },
    };
    let visual_elements = match visual {
        Some(rf) => match decode_visual_elements(rf) {
            Ok(x) => x,
            Err(e) => {
                return Err(e);
            },
        },
        None => {
            return Err(err_missing("visual_elements", "application"));
        },
    };
    let executable = match executable {
        Some(s) => Some(s.clone()),
        None => None,
    };
    let entry_point = match entry_point {
        Some(s) => Some(s.clone()),
        None => None,
    };
    let m = Application { id, executable, entry_point, visual_elements };
    proof {
        match application_spec(fs) {
            Ok(v) => {
                assert(m@ =~= v);
            },
            Err(_) => {
                assert(false);
            },
        }
    }
    Ok(m)
}

/// One element of the `application` list of a `applications` record.
pub open spec fn application_item_spec(v: Value) -> Result<ApplicationV, ErrorSpec> {
    match v {
        Value::Record(fs) => application_spec(fs@),
        _ => Err(ErrorSpec::TypeMismatch { field: "application"@, container: "applications"@ }),
    }
}

/// Strict decode of the `application` list, in document order; the first
/// failing element decides the error.
pub open spec fn application_list_spec(vals: Seq<Value>) -> Result<Seq<ApplicationV>, ErrorSpec>
    decreases vals.len(),
{
    if vals.len() == 0 {
        Ok(Seq::<ApplicationV>::empty())
    } else {
        match application_item_spec(vals[0]) {
            Err(e) => Err(e),
            Ok(x) => match application_list_spec(vals.drop_first()) {
                Err(e) => Err(e),
                Ok(rest) => Ok(seq![x] + rest),
            },
        }
    }
}

/// The closed schema of one `applications` field.
pub open spec fn applications_fault(f: Field) -> Option<ErrorSpec> {
    if f.name@ == "application"@ {
        if f.value is List {
            None
        } else {
            Some(ErrorSpec::TypeMismatch { field: f.name@, container: "applications"@ })
        }
    } else {
        Some(ErrorSpec::UnknownField { field: f.name@, container: "applications"@ })
    }
}

/// The first fault among the fields of a `applications` record.
pub open spec fn applications_scan(fields: Seq<Field>) -> Option<ErrorSpec>
    decreases fields.len(),
{
    if fields.len() == 0 {
        None
    } else {
        match applications_fault(fields[0]) {
            Some(e) => Some(e),
            None => applications_scan(fields.drop_first()),
        }
    }
}

/// Strict decode of a `applications` record: one sequence field, empty
/// when absent.
pub open spec fn applications_spec(fields: Seq<Field>) -> Result<Seq<ApplicationV>, ErrorSpec> {
    match applications_scan(fields) {
        Some(e) => Err(e),
        None => application_list_spec(list_v(lkp(fields, "application"@))),
    }
}

/// Decodes a `applications` record.
pub fn decode_applications(fields: &Vec<Field>) -> (r: Result<Applications, Error>)
    ensures
        outcome_eq(r, applications_spec(fields@)),
{
    let ghost fs = fields@;
    proof {
        assert(fs.skip(0) =~= fs);
    }
    let mut items: Option<&Vec<Value>> = None;
    let n = fields.len();
    let mut i: usize = 0;
    while i < n
        invariant
            i <= n,
            n == fields.len(),
            fs == fields@,
            applications_scan(fs) == applications_scan(fs.skip(i as int)),
            list_slot(items, fs, i as int, "application"@),
        decreases n - i,
    {
        let f = &fields[i];
        proof {
            assert(fs.skip(i as int)[0] == fs[i as int]);
            assert(fs.skip(i as int).drop_first() =~= fs.skip(i as int + 1));
        }
        if name_is(&f.name, "application") {
            match &f.value {
                Value::List(vs) => {
                    if items.is_none() {
                        items = Some(vs);
                    }
                },
                _ => {
                    return Err(err_mismatch(&f.name, "applications"));
                },
            }
        } else {
            return Err(err_unknown(&f.name, "applications"));
        }
        i += 1;
    }
    proof {
        assert(fs.skip(n as int) =~= Seq::<Field>::empty());
    }
    let mut out: Vec<Application> = Vec::new();
    match items {
        None => {
            let w = Applications { application: out };
            proof {
                assert(w@ =~= Seq::<ApplicationV>::empty());
            }
            Ok(w)
        },
        Some(vals) => {
            let ghost vs = vals@;
            proof {
                assert(vs.skip(0) =~= vs);
            }
            let m = vals.len();
            let mut j: usize = 0;
            while j < m
                invariant
                    j <= m,
                    m == vals.len(),
                    vs == vals@,
                    fs == fields@,
                    applications_scan(fs) == None::<ErrorSpec>,
                    lkp(fs, "application"@) == Some(Value::List(*vals)),
                    list_progress(application_list_spec(vs), application_list_spec(vs.skip(j as int)), out@),
                decreases m - j,
            {
                proof {
                    assert(vs.skip(j as int)[0] == vs[j as int]);
                    assert(vs.skip(j as int).drop_first() =~= vs.skip(j as int + 1));
                }
                let item = match &vals[j] {
                    Value::Record(rf) => decode_application(rf),
                    _ => Err(err_mismatch_lit("application", "applications")),
                };
                match item {
                    Ok(x) => {
                        let ghost prev = out@;
                        out.push(x);
                        proof {
                            assert(views_of(out@) =~= views_of(prev).push(x@));
                            match application_list_spec(vs.skip(j as int + 1)) {
                                Ok(rest) => {
                                    assert(views_of(prev) + (seq![x@] + rest) =~= views_of(out@)
                                        + rest);
                                },
                                Err(_) => {},
                            }
                        }
                    },
                    Err(e) => {
                        return Err(e);
                    },
                }
                j += 1;
            }
            proof {
                assert(vs.skip(m as int) =~= Seq::<Value>::empty());
                assert(views_of(out@) + Seq::<ApplicationV>::empty() =~= views_of(out@));
            }
            let w = Applications { application: out };
            proof {
                assert(w@ =~= views_of(w.application@));
            }
            Ok(w)
        },
    }
}

/// The closed schema of the one field inside a capability body: `name`,
/// holding text. The container in an error is the discriminator itself.
pub open spec fn cap_name_fault(f: Field, c: Seq<char>) -> Option<ErrorSpec> {
    if f.name@ == "name"@ {
        if f.value is Str {
            None
        } else {
            Some(ErrorSpec::TypeMismatch { field: f.name@, container: c })
        }
    } else {
        Some(ErrorSpec::UnknownField { field: f.name@, container: c })
    }
}

/// The first fault among the fields of a capability body.
pub open spec fn cap_name_scan(fields: Seq<Field>, c: Seq<char>) -> Option<ErrorSpec>
    decreases fields.len(),
{
    if fields.len() == 0 {
        None
    } else {
        match cap_name_fault(fields[0], c) {
            Some(e) => Some(e),
            None => cap_name_scan(fields.drop_first(), c),
        }
    }
}

/// Strict decode of a capability body: exactly the required `name`.
pub open spec fn cap_name_spec(fields: Seq<Field>, c: Seq<char>) -> Result<Seq<char>, ErrorSpec> {
    match cap_name_scan(fields, c) {
        Some(e) => Err(e),
        None => if lkp(fields, "name"@) is None {
            Err(ErrorSpec::MissingRequiredField { field: "name"@, container: c })
        } else {
            Ok(str_v(lkp(fields, "name"@)))
        },
    }
}

fn decode_cap_name(fields: &Vec<Field>, container: &str) -> (r: Result<String, Error>)
    ensures
        outcome_eq(r, cap_name_spec(fields@, container@)),
{
    let ghost fs = fields@;
    proof {
        assert(fs.skip(0) =~= fs);
    }
    let mut name: Option<&String> = None;
    let n = fields.len();
    let mut i: usize = 0;
    while i < n
        invariant
            i <= n,
            n == fields.len(),
            fs == fields@,
            cap_name_scan(fs, container@) == cap_name_scan(fs.skip(i as int), container@),
            str_slot(name, fs, i as int, "name"@),
        decreases n - i,
    {
        let f = &fields[i];
        proof {
            assert(fs.skip(i as int)[0] == fs[i as int]);
            assert(fs.skip(i as int).drop_first() =~= fs.skip(i as int + 1));
        }
        if name_is(&f.name, "name") {
            match &f.value {
                Value::Str(s) => {
                    if name.is_none() {
                        name = Some(s);
                    }
                },
                _ => {
                    return Err(err_mismatch(&f.name, container));
                },
            }
        } else {
            return Err(err_unknown(&f.name, container));
        }
        i += 1;
    }
    proof {
        assert(fs.skip(n as int) =~= Seq::<Field>::empty());
    }
    match name {
        Some(s) => Ok(s.clone()),
        None => Err(err_missing("name", container)),
    }
}

/// The polymorphic capability codec's decode table: a closed set of
/// three lowercase discriminators, each mapped to its model variant.
/// This table is fixed and is never derived from the encode table; any
/// other discriminator is an unrecognized variant. A capability element
/// is a record holding exactly one field, the discriminator, whose value
/// is the capability body.
pub open spec fn capability_item_spec(v: Value) -> Result<CapabilityV, ErrorSpec> {
    match v {
        Value::Record(fs) => if fs@.len() != 1 {
            Err(ErrorSpec::TypeMismatch { field: "capabilities"@, container: "package"@ })
        } else if fs@[0].name@ == "capability"@ {
            match fs@[0].value {
                Value::Record(inner) => match cap_name_spec(inner@, "capability"@) {
                    Err(e) => Err(e),
                    Ok(nm) => Ok(CapabilityV::Capability { name: nm }),
                },
                _ => Err(
                    ErrorSpec::TypeMismatch { field: "capability"@, container: "capabilities"@ },
                ),
            }
        } else if fs@[0].name@ == "restricted"@ {
            match fs@[0].value {
                Value::Record(inner) => match cap_name_spec(inner@, "restricted"@) {
                    Err(e) => Err(e),
                    Ok(nm) => Ok(CapabilityV::Restricted { name: nm }),
                },
                _ => Err(
                    ErrorSpec::TypeMismatch { field: "restricted"@, container: "capabilities"@ },
                ),
            }
        } else if fs@[0].name@ == "device"@ {
            match fs@[0].value {
                Value::Record(inner) => match cap_name_spec(inner@, "device"@) {
                    Err(e) => Err(e),
                    Ok(nm) => Ok(CapabilityV::Device { name: nm }),
                },
                _ => Err(ErrorSpec::TypeMismatch { field: "device"@, container: "capabilities"@ }),
            }
        } else {
            Err(ErrorSpec::UnrecognizedVariant { discriminator: fs@[0].name@ })
        },
        _ => Err(ErrorSpec::TypeMismatch { field: "capabilities"@, container: "package"@ }),
    }
}

/// Decodes one capability element.
pub fn decode_capability(v: &Value) -> (r: Result<Capability, Error>)
    ensures
        outcome_eq(r, capability_item_spec(*v)),
{
    let fs = match v {
        Value::Record(fs) => fs,
        _ => {
            return Err(err_mismatch_lit("capabilities", "package"));
        },
    };
    if fs.len() != 1 {
        return Err(err_mismatch_lit("capabilities", "package"));
    }
    let f = &fs[0];
    if name_is(&f.name, "capability") {
        match &f.value {
            Value::Record(inner) => match decode_cap_name(inner, "capability") {
                Ok(name) => Ok(Capability::Capability { name }),
                Err(e) => Err(e),
            },
            _ => Err(err_mismatch_lit("capability", "capabilities")),
        }
    } else if name_is(&f.name, "restricted") {
        match &f.value {
            Value::Record(inner) => match decode_cap_name(inner, "restricted") {
                Ok(name) => Ok(Capability::Restricted { name }),
                Err(e) => Err(e),
            },
            _ => Err(err_mismatch_lit("restricted", "capabilities")),
        }
    } else if name_is(&f.name, "device") {
        match &f.value {
            Value::Record(inner) => match decode_cap_name(inner, "device") {
                Ok(name) => Ok(Capability::Device { name }),
                Err(e) => Err(e),
            },
            _ => Err(err_mismatch_lit("device", "capabilities")),
        }
    } else {
        Err(err_variant(&f.name))
    }
}

/// Strict decode of the `capabilities` list, in document order: the
/// order of the decoded sequence equals the document order, and the
/// first failing element decides the error.
pub open spec fn capabilities_list_spec(vals: Seq<Value>) -> Result<Seq<CapabilityV>, ErrorSpec>
    decreases vals.len(),
{
    if vals.len() == 0 {
        Ok(Seq::<CapabilityV>::empty())
    } else {
        match capability_item_spec(vals[0]) {
            Err(e) => Err(e),
            Ok(x) => match capabilities_list_spec(vals.drop_first()) {
                Err(e) => Err(e),
                Ok(rest) => Ok(seq![x] + rest),
            },
        }
    }
}

proof fn package_names_distinct()
    ensures
        "ns"@ != "ns_uap"@,
        "ns"@ != "ns_rescap"@,
        "ns"@ != "identity"@,
        "ns"@ != "properties"@,
        "ns"@ != "resources"@,
        "ns"@ != "dependencies"@,
        "ns"@ != "capabilities"@,
        "ns"@ != "applications"@,
        "ns_uap"@ != "ns_rescap"@,
        "ns_uap"@ != "identity"@,
        "ns_uap"@ != "properties"@,
        "ns_uap"@ != "resources"@,
        "ns_uap"@ != "dependencies"@,
        "ns_uap"@ != "capabilities"@,
        "ns_uap"@ != "applications"@,
        "ns_rescap"@ != "identity"@,
        "ns_rescap"@ != "properties"@,
        "ns_rescap"@ != "resources"@,
        "ns_rescap"@ != "dependencies"@,
        "ns_rescap"@ != "capabilities"@,
        "ns_rescap"@ != "applications"@,
        "identity"@ != "properties"@,
        "identity"@ != "resources"@,
        "identity"@ != "dependencies"@,
        "identity"@ != "capabilities"@,
        "identity"@ != "applications"@,
        "properties"@ != "resources"@,
        "properties"@ != "dependencies"@,
        "properties"@ != "capabilities"@,
        "properties"@ != "applications"@,
        "resources"@ != "dependencies"@,
        "resources"@ != "capabilities"@,
        "resources"@ != "applications"@,
        "dependencies"@ != "capabilities"@,
        "dependencies"@ != "applications"@,
        "capabilities"@ != "applications"@,
{
    reveal_strlit("ns");
    reveal_strlit("ns_uap");
    reveal_strlit("ns_rescap");
    reveal_strlit("identity");
    reveal_strlit("properties");
    reveal_strlit("resources");
    reveal_strlit("dependencies");
    reveal_strlit("capabilities");
    reveal_strlit("applications");
    assert("ns"@.len() == 2);
    assert("ns_uap"@.len() == 6);
    assert("ns_rescap"@.len() == 9);
    assert("identity"@.len() == 8);
    assert("properties"@.len() == 10);
    assert("resources"@.len() == 9);
    assert("dependencies"@.len() == 12);
    assert("capabilities"@.len() == 12);
    assert("applications"@.len() == 12);
    assert("ns_rescap"@[0] == 'n');
    assert("resources"@[0] == 'r');
    assert("dependencies"@[0] == 'd');
    assert("capabilities"@[0] == 'c');
    assert("applications"@[0] == 'a');
}

/// The closed schema of one root `package` field.
pub open spec fn package_fault(f: Field) -> Option<ErrorSpec> {
    if f.name@ == "ns"@ || f.name@ == "ns_uap"@ || f.name@ == "ns_rescap"@ {
        if f.value is Str {
            None
        } else {
            Some(ErrorSpec::TypeMismatch { field: f.name@, container: "package"@ })
        }
    } else if f.name@ == "identity"@ || f.name@ == "properties"@ || f.name@ == "resources"@
        || f.name@ == "dependencies"@ || f.name@ == "applications"@ {
        if f.value is Record {
            None
        } else {
            Some(ErrorSpec::TypeMismatch { field: f.name@, container: "package"@ })
        }
    } else if f.name@ == "capabilities"@ {
        if f.value is List {
            None
        } else {
            Some(ErrorSpec::TypeMismatch { field: f.name@, container: "package"@ })
        }
    } else {
        Some(ErrorSpec::UnknownField { field: f.name@, container: "package"@ })
    }
}

/// The first fault among the fields of a root `package` record.
pub open spec fn package_scan(fields: Seq<Field>) -> Option<ErrorSpec>
    decreases fields.len(),
{
    if fields.len() == 0 {
        None
    } else {
        match package_fault(fields[0]) {
            Some(e) => Some(e),
            None => package_scan(fields.drop_first()),
        }
    }
}

/// A namespace field's text, or its fixed default when absent.
pub open spec fn text_or(v: Option<Value>, dflt: Seq<char>) -> Seq<char> {
    match v {
        Some(Value::Str(s)) => s@,
        _ => dflt,
    }
}

/// Decode of the optional `resources` section: empty when absent.
pub open spec fn opt_resources_spec(v: Option<Value>) -> Result<Seq<ResourceV>, ErrorSpec> {
    match v {
        None => Ok(Seq::<ResourceV>::empty()),
        Some(Value::Record(fs)) => resources_spec(fs@),
        Some(_) => arbitrary(),
    }
}

/// Decode of the optional `dependencies` section: empty when absent.
pub open spec fn opt_dependencies_spec(v: Option<Value>) -> Result<
    Seq<TargetDeviceFamilyV>,
    ErrorSpec,
> {
    match v {
        None => Ok(Seq::<TargetDeviceFamilyV>::empty()),
        Some(Value::Record(fs)) => dependencies_spec(fs@),
        Some(_) => arbitrary(),
    }
}

/// Decode of the optional `applications` section: empty when absent.
pub open spec fn opt_applications_spec(v: Option<Value>) -> Result<Seq<ApplicationV>, ErrorSpec> {
    match v {
        None => Ok(Seq::<ApplicationV>::empty()),
        Some(Value::Record(fs)) => applications_spec(fs@),
        Some(_) => arbitrary(),
    }
}

/// Strict decode of a whole manifest document: the identity and the
/// properties are required; the namespaces default to the fixed URIs;
/// the sections default to empty sequences. Sub-records decode in
/// schema order, and the first failure anywhere decides the error.
pub open spec fn manifest_spec(fields: Seq<Field>) -> Result<AppxManifestV, ErrorSpec> {
    match package_scan(fields) {
        Some(e) => Err(e),
        None => if lkp(fields, "identity"@) is None {
            Err(ErrorSpec::MissingRequiredField { field: "identity"@, container: "package"@ })
        } else if lkp(fields, "properties"@) is None {
            Err(ErrorSpec::MissingRequiredField { field: "properties"@, container: "package"@ })
        } else {
            match identity_spec(rec_v(lkp(fields, "identity"@))) {
                Err(e) => Err(e),
                Ok(identity) => match properties_spec(rec_v(lkp(fields, "properties"@))) {
                    Err(e) => Err(e),
                    Ok(properties) => match opt_resources_spec(lkp(fields, "resources"@)) {
                        Err(e) => Err(e),
                        Ok(resources) => match opt_dependencies_spec(lkp(fields, "dependencies"@)) {
                            Err(e) => Err(e),
                            Ok(dependencies) => match capabilities_list_spec(
                                list_v(lkp(fields, "capabilities"@)),
                            ) {
                                Err(e) => Err(e),
                                Ok(capabilities) => match opt_applications_spec(
                                    lkp(fields, "applications"@),
                                ) {
                                    Err(e) => Err(e),
                                    Ok(applications) => Ok(
                                        AppxManifestV {
                                            ns: text_or(
                                                lkp(fields, "ns"@),
                                                "http://schemas.microsoft.com/appx/manifest/foundation/windows10"@,
                                            ),
                                            ns_uap: text_or(
                                                lkp(fields, "ns_uap"@),
                                                "http://schemas.microsoft.com/appx/manifest/uap/windows10"@,
                                            ),
                                            ns_rescap: text_or(
                                                lkp(fields, "ns_rescap"@),
                                                "http://schemas.microsoft.com/appx/manifest/foundation/windows10/restrictedcapabilities"@,
                                            ),
                                            identity,
                                            properties,
                                            resources,
                                            dependencies,
                                            capabilities,
                                            applications,
                                        },
                                    ),
                                },
                            },
                        },
                    },
                },
            }
        },
    }
}

/// Decodes a whole manifest document from its root field list.
#[verifier::loop_isolation(false)]
#[verifier::rlimit(100)]
pub fn decode_manifest(fields: &Vec<Field>) -> (r: Result<AppxManifest, Error>)
    ensures
        outcome_eq(r, manifest_spec(fields@)),
{
    let ghost fs = fields@;
    proof {
        assert(fs.skip(0) =~= fs);
    }
    let mut ns: Option<&String> = None;
    let mut ns_uap: Option<&String> = None;
    let mut ns_rescap: Option<&String> = None;
    let mut identity: Option<&Vec<Field>> = None;
    let mut properties: Option<&Vec<Field>> = None;
    let mut resources: Option<&Vec<Field>> = None;
    let mut dependencies: Option<&Vec<Field>> = None;
    let mut capabilities: Option<&Vec<Value>> = None;
    let mut applications: Option<&Vec<Field>> = None;
    let n = fields.len();
    let mut i: usize = 0;
    while i < n
        invariant
            i <= n,
            package_scan(fs) == package_scan(fs.skip(i as int)),
            str_slot(ns, fs, i as int, "ns"@),
            str_slot(ns_uap, fs, i as int, "ns_uap"@),
            str_slot(ns_rescap, fs, i as int, "ns_rescap"@),
            rec_slot(identity, fs, i as int, "identity"@),
            rec_slot(properties, fs, i as int, "properties"@),
            rec_slot(resources, fs, i as int, "resources"@),
            rec_slot(dependencies, fs, i as int, "dependencies"@),
            list_slot(capabilities, fs, i as int, "capabilities"@),
            rec_slot(applications, fs, i as int, "applications"@),
        decreases n - i,
    {
        let f = &fields[i];
        proof {
            package_names_distinct();
            assert(fs.skip(i as int)[0] == fs[i as int]);
            assert(fs.skip(i as int).drop_first() =~= fs.skip(i as int + 1));
        }
        if name_is(&f.name, "ns") {
            match &f.value {
                Value::Str(s) => {
                    if ns.is_none() {
                        ns = Some(s);
                    }
                },
                _ => {
                    return Err(err_mismatch(&f.name, "package"));
                },
            }
        } else if name_is(&f.name, "ns_uap") {
            match &f.value {
                Value::Str(s) => {
                    if ns_uap.is_none() {
                        ns_uap = Some(s);
                    }
                },
                _ => {
                    return Err(err_mismatch(&f.name, "package"));
                },
            }
        } else if name_is(&f.name, "ns_rescap") {
            match &f.value {
                Value::Str(s) => {
                    if ns_rescap.is_none() {
                        ns_rescap = Some(s);
                    }
                },
                _ => {
                    return Err(err_mismatch(&f.name, "package"));
                },
            }
        } else if name_is(&f.name, "identity") {
            match &f.value {
                Value::Record(rf) => {
                    if identity.is_none() {
                        identity = Some(rf);
                    }
                },
                _ => {
                    return Err(err_mismatch(&f.name, "package"));
                },
            }
        } else if name_is(&f.name, "properties") {
            match &f.value {
                Value::Record(rf) => {
                    if properties.is_none() {
                        properties = Some(rf);
                    }
                },
                _ => {
                    return Err(err_mismatch(&f.name, "package"));
                },
            }
        } else if name_is(&f.name, "resources") {
            match &f.value {
                Value::Record(rf) => {
                    if resources.is_none() {
                        resources = Some(rf);
                    }
                },
                _ => {
                    return Err(err_mismatch(&f.name, "package"));
                },
            }
        } else if name_is(&f.name, "dependencies") {
            match &f.value {
                Value::Record(rf) => {
                    if dependencies.is_none() {
                        dependencies = Some(rf);
                    }
                },
                _ => {
                    return Err(err_mismatch(&f.name, "package"));
                },
            }
        } else if name_is(&f.name, "capabilities") {
            match &f.value {
                Value::List(vs) => {
                    if capabilities.is_none() {
                        capabilities = Some(vs);
                    }
                },
                _ => {
                    return Err(err_mismatch(&f.name, "package"));
                },
            }
        } else if name_is(&f.name, "applications") {
            match &f.value {
                Value::Record(rf) => {
                    if applications.is_none() {
                        applications = Some(rf);
                    }
                },
                _ => {
                    return Err(err_mismatch(&f.name, "package"));
                },
            }
        } else {
            return Err(err_unknown(&f.name, "package"));
        }
        i += 1;
    }
    proof {
        assert(fs.skip(n as int) =~= Seq::<Field>::empty());
    }
    let identity = match identity {
        Some(rf) => rf,
        None => {
            return Err(err_missing("identity", "package"));
        },
    };
    let properties = match properties {
        Some(rf) => rf,
        None => {
            return Err(err_missing("properties", "package"));
        },
    };
    let identity = match decode_identity(identity) {
        Ok(x) => x,
        Err(e) => {
            return Err(e);
        },
    };
    let properties = match decode_properties(properties) {
        Ok(x) => x,
        Err(e) => {
            return Err(e);
        },
    };
    let resources = match resources {
        Some(rf) => match decode_resources(rf) {
            Ok(x) => x,
            Err(e) => {
                return Err(e);
            },
        },
        None => Resources::default(),
    };
    let dependencies = match dependencies {
        Some(rf) => match decode_dependencies(rf) {
            Ok(x) => x,
            Err(e) => {
                return Err(e);
            },
        },
        None => Dependencies::default(),
    };
    let mut caps: Vec<Capability> = Vec::new();
    match capabilities {
        None => {
            proof {
                assert(views_of(caps@) =~= Seq::<CapabilityV>::empty());
            }
        },
        Some(vals) => {
            let ghost vs = vals@;
            proof {
                assert(vs.skip(0) =~= vs);
            }
            let m = vals.len();
            let mut j: usize = 0;
            while j < m
                invariant
                    j <= m,
                    list_progress(
                        capabilities_list_spec(vs),
                        capabilities_list_spec(vs.skip(j as int)),
                        caps@,
                    ),
                decreases m - j,
            {
                proof {
                    assert(vs.skip(j as int)[0] == vs[j as int]);
                    assert(vs.skip(j as int).drop_first() =~= vs.skip(j as int + 1));
                }
                match decode_capability(&vals[j]) {
                    Ok(x) => {
                        let ghost prev = caps@;
                        caps.push(x);
                        proof {
                            assert(views_of(caps@) =~= views_of(prev).push(x@));
                            match capabilities_list_spec(vs.skip(j as int + 1)) {
                                Ok(rest) => {
                                    assert(views_of(prev) + (seq![x@] + rest) =~= views_of(caps@)
                                        + rest);
                                },
                                Err(_) => {},
                            }
                        }
                    },
                    Err(e) => {
                        return Err(e);
                    },
                }
                j += 1;
            }
            proof {
                assert(vs.skip(m as int) =~= Seq::<Value>::empty());
                assert(views_of(caps@) + Seq::<CapabilityV>::empty() =~= views_of(caps@));
            }
        },
    }
    let applications = match applications {
        Some(rf) => match decode_applications(rf) {
            Ok(x) => x,
            Err(e) => {
                return Err(e);
            },
        },
        None => Applications::default(),
    };
    let ns = match ns {
        Some(s) => s.clone(),
        None => crate::default_namespace(),
    };
    let ns_uap = match ns_uap {
        Some(s) => s.clone(),
        None => crate::default_uap_namespace(),
    };
    let ns_rescap = match ns_rescap {
        Some(s) => s.clone(),
        None => crate::default_rescap_namespace(),
    };
    let m = AppxManifest {
        ns,
        ns_uap,
        ns_rescap,
        identity,
        properties,
        resources,
        dependencies,
        capabilities: caps,
        applications,
    };
    proof {
        match manifest_spec(fs) {
            Ok(v) => {
                assert(m@ =~= v);
            },
            Err(_) => {
                assert(false);
            },
        }
    }
    Ok(m)
}

} // verus!
