//! Schema-faithful data model and strict transcoder for an application
//! package manifest.
//!
//! The library decodes a loosely shaped, lowercase-named input document into
//! a typed model, rejecting every unrecognized field, and encodes the model
//! as a rigid, namespaced output document whose tag vocabulary differs from
//! the input vocabulary in fixed, asymmetric ways.

pub mod decode;
pub mod encode;
pub mod error;
pub mod input;
pub mod laws;
pub mod model;

pub use error::Error;
pub use input::{Field, Value};
pub use model::{
    Application, ApplicationKind, Applications, AppxManifest, Capability, DefaultTile,
    Dependencies, Identity, LockScreen, Properties, Resource, Resources, ShowNameOnTiles, ShowOn,
    SplashScreen, TargetDeviceFamily, VisualElements,
};

use vstd::prelude::*;

verus! {

/// The default root namespace declared on an encoded manifest.
pub fn default_namespace() -> (r: String)
    ensures
        r@ == "http://schemas.microsoft.com/appx/manifest/foundation/windows10"@,
{
    String::from_str("http://schemas.microsoft.com/appx/manifest/foundation/windows10")
}

/// The default `uap` namespace declared on an encoded manifest.
pub fn default_uap_namespace() -> (r: String)
    ensures
        r@ == "http://schemas.microsoft.com/appx/manifest/uap/windows10"@,
{
    String::from_str("http://schemas.microsoft.com/appx/manifest/uap/windows10")
}

/// The default `rescap` namespace declared on an encoded manifest.
pub fn default_rescap_namespace() -> (r: String)
    ensures
        r@ == "http://schemas.microsoft.com/appx/manifest/foundation/windows10/restrictedcapabilities"@,
{
    String::from_str(
        "http://schemas.microsoft.com/appx/manifest/foundation/windows10/restrictedcapabilities",
    )
}

} // verus!
