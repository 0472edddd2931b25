//! The typed manifest model.
//!
//! Every entity is an immutable value record: constructed once from decoded
//! input (or through an explicit default), optionally edited by the caller,
//! and discarded after the output document is produced.

use vstd::prelude::*;

use crate::error::{Error, ErrorSpec};

verus! {

/// The root aggregate of a package manifest.
#[derive(Clone, Debug)]
pub struct AppxManifest {
    /// The root namespace, declared as `xmlns` on encode.
    pub ns: String,
    /// The `uap` namespace, declared as `xmlns:uap` on encode.
    pub ns_uap: String,
    /// The `rescap` namespace, declared as `xmlns:rescap` on encode.
    pub ns_rescap: String,
    pub identity: Identity,
    pub properties: Properties,
    pub resources: Resources,
    pub dependencies: Dependencies,
    pub capabilities: Vec<Capability>,
    pub applications: Applications,
}

/// The application list of a manifest; 1 to 100 entries once validated.
#[derive(Clone, Debug)]
pub struct Applications {
    pub application: Vec<Application>,
}

/// The resource list of a manifest; 0 to 200 entries once validated.
#[derive(Clone, Debug)]
pub struct Resources {
    pub resource: Vec<Resource>,
}

/// The dependency list of a manifest; 1 to 128 entries once validated.
#[derive(Clone, Debug)]
pub struct Dependencies {
    pub target_device_family: Vec<TargetDeviceFamily>,
}

/// The package identity.
#[derive(Clone, Debug)]
pub struct Identity {
    pub name: String,
    pub version: String,
    pub publisher: String,
    pub processor_architecture: Option<String>,
}

/// Display properties. Each string field renders as exactly one child
/// element on encode, never as an attribute.
#[derive(Clone, Debug)]
pub struct Properties {
    pub display_name: String,
    pub publisher_display_name: String,
    pub logo: String,
    pub description: Option<String>,
}

/// One resource declaration.
#[derive(Clone, Debug)]
pub struct Resource {
    pub language: Option<String>,
    pub scale: Option<u32>,
    pub dx_feature_level: Option<String>,
}

/// One target device family of the dependency list.
#[derive(Clone, Debug)]
pub struct TargetDeviceFamily {
    pub name: String,
    pub min_version: String,
    pub max_version_tested: String,
}

/// A closed three-way capability choice. The variant's identity, not its
/// field, decides the encoded tag; the decode and encode tag vocabularies
/// are distinct and never derived from each other.
#[derive(Clone, Debug)]
pub enum Capability {
    /// Decoded from `capability`; encoded as `Capability`.
    Capability { name: String },
    /// Decoded from `restricted`; encoded as `rescap:Capability`.
    Restricted { name: String },
    /// Decoded from `device`; encoded as `DeviceCapability`.
    Device { name: String },
}

/// How an application is entered.
#[derive(Clone, Debug)]
pub enum ApplicationKind {
    Broken,
    Executable { executable: String, entry_point: String },
    StartPage {
        /// The web page that handles the extensibility point.
        start_page: String,
    },
}

/// One application entry.
#[derive(Clone, Debug)]
pub struct Application {
    pub id: String,
    pub executable: Option<String>,
    pub entry_point: Option<String>,
    pub visual_elements: VisualElements,
}

/// The visual elements of an application.
#[derive(Clone, Debug)]
pub struct VisualElements {
    pub display_name: String,
    pub description: String,
    pub background_color: String,
    pub logo_150x150: String,
    pub logo_44x44: String,
    pub default_tile: Option<DefaultTile>,
    pub splash_screen: Option<SplashScreen>,
    pub lock_screen: Option<LockScreen>,
}

/// The default tile of an application.
#[derive(Clone, Debug)]
pub struct DefaultTile {
    pub short_name: Option<String>,
    pub logo_71x71: Option<String>,
    pub logo_310x310: Option<String>,
    pub logo_310x150: Option<String>,
    pub show_names_on_tiles: ShowNameOnTiles,
}

/// The tile sizes that show the application's name.
#[derive(Clone, Debug)]
pub struct ShowNameOnTiles {
    pub show_on: Vec<ShowOn>,
}

/// One tile size that shows the application's name.
#[derive(Clone, Debug)]
pub struct ShowOn {
    pub tile: String,
}

/// The splash screen of an application.
#[derive(Clone, Debug)]
pub struct SplashScreen {
    pub image: String,
}

/// The lock screen of an application.
#[derive(Clone, Debug)]
pub struct LockScreen {
    pub badge_logo: String,
    pub notification: String,
}

/// The mathematical image of an [`AppxManifest`]. The three sequence
/// wrappers flatten to the sequences they carry.
#[verifier::ext_equal]
pub ghost struct AppxManifestV {
    pub ns: Seq<char>,
    pub ns_uap: Seq<char>,
    pub ns_rescap: Seq<char>,
    pub identity: IdentityV,
    pub properties: PropertiesV,
    pub resources: Seq<ResourceV>,
    pub dependencies: Seq<TargetDeviceFamilyV>,
    pub capabilities: Seq<CapabilityV>,
    pub applications: Seq<ApplicationV>,
}

/// The mathematical image of an [`Identity`].
#[verifier::ext_equal]
pub ghost struct IdentityV {
    pub name: Seq<char>,
    pub version: Seq<char>,
    pub publisher: Seq<char>,
    pub processor_architecture: Option<Seq<char>>,
}

/// The mathematical image of a [`Properties`].
#[verifier::ext_equal]
pub ghost struct PropertiesV {
    pub display_name: Seq<char>,
    pub publisher_display_name: Seq<char>,
    pub logo: Seq<char>,
    pub description: Option<Seq<char>>,
}

/// The mathematical image of a [`Resource`].
#[verifier::ext_equal]
pub ghost struct ResourceV {
    pub language: Option<Seq<char>>,
    pub scale: Option<u32>,
    pub dx_feature_level: Option<Seq<char>>,
}

/// The mathematical image of a [`TargetDeviceFamily`].
#[verifier::ext_equal]
pub ghost struct TargetDeviceFamilyV {
    pub name: Seq<char>,
    pub min_version: Seq<char>,
    pub max_version_tested: Seq<char>,
}

/// The mathematical image of a [`Capability`].
#[verifier::ext_equal]
pub ghost enum CapabilityV {
    Capability { name: Seq<char> },
    Restricted { name: Seq<char> },
    Device { name: Seq<char> },
}

/// The mathematical image of an [`Application`].
#[verifier::ext_equal]
pub ghost struct ApplicationV {
    pub id: Seq<char>,
    pub executable: Option<Seq<char>>,
    pub entry_point: Option<Seq<char>>,
    pub visual_elements: VisualElementsV,
}

/// The mathematical image of a [`VisualElements`].
#[verifier::ext_equal]
pub ghost struct VisualElementsV {
    pub display_name: Seq<char>,
    pub description: Seq<char>,
    pub background_color: Seq<char>,
    pub logo_150x150: Seq<char>,
    pub logo_44x44: Seq<char>,
    pub default_tile: Option<DefaultTileV>,
    pub splash_screen: Option<SplashScreenV>,
    pub lock_screen: Option<LockScreenV>,
}

/// The mathematical image of a [`DefaultTile`]. The tile-name wrapper
/// flattens to the sequence it carries.
#[verifier::ext_equal]
pub ghost struct DefaultTileV {
    pub short_name: Option<Seq<char>>,
    pub logo_71x71: Option<Seq<char>>,
    pub logo_310x310: Option<Seq<char>>,
    pub logo_310x150: Option<Seq<char>>,
    pub show_names_on_tiles: Seq<ShowOnV>,
}

/// The mathematical image of a [`ShowOn`].
#[verifier::ext_equal]
pub ghost struct ShowOnV {
    pub tile: Seq<char>,
}

/// The mathematical image of a [`SplashScreen`].
#[verifier::ext_equal]
pub ghost struct SplashScreenV {
    pub image: Seq<char>,
}

/// The mathematical image of a [`LockScreen`].
#[verifier::ext_equal]
pub ghost struct LockScreenV {
    pub badge_logo: Seq<char>,
    pub notification: Seq<char>,
}

impl View for AppxManifest {
    type V = AppxManifestV;

    open spec fn view(&self) -> AppxManifestV {
        AppxManifestV {
            ns: self.ns@,
            ns_uap: self.ns_uap@,
            ns_rescap: self.ns_rescap@,
            identity: self.identity@,
            properties: self.properties@,
            resources: self.resources@,
            dependencies: self.dependencies@,
            capabilities: self.capabilities@.map_values(|c: Capability| c@),
            applications: self.applications@,
        }
    }
}

impl View for Applications {
    type V = Seq<ApplicationV>;

    open spec fn view(&self) -> Seq<ApplicationV> {
        self.application@.map_values(|a: Application| a@)
    }
}

impl View for Resources {
    type V = Seq<ResourceV>;

    open spec fn view(&self) -> Seq<ResourceV> {
        self.resource@.map_values(|r: Resource| r@)
    }
}

impl View for Dependencies {
    type V = Seq<TargetDeviceFamilyV>;

    open spec fn view(&self) -> Seq<TargetDeviceFamilyV> {
        self.target_device_family@.map_values(|t: TargetDeviceFamily| t@)
    }
}

impl View for Identity {
    type V = IdentityV;

    open spec fn view(&self) -> IdentityV {
        IdentityV {
            name: self.name@,
            version: self.version@,
            publisher: self.publisher@,
            processor_architecture: match self.processor_architecture {
                Some(s) => Some(s@),
                None => None,
            },
        }
    }
}

impl View for Properties {
    type V = PropertiesV;

    open spec fn view(&self) -> PropertiesV {
        PropertiesV {
            display_name: self.display_name@,
            publisher_display_name: self.publisher_display_name@,
            logo: self.logo@,
            description: match self.description {
                Some(s) => Some(s@),
                None => None,
            },
        }
    }
}

impl View for Resource {
    type V = ResourceV;

    open spec fn view(&self) -> ResourceV {
        ResourceV {
            language: match self.language {
                Some(s) => Some(s@),
                None => None,
            },
            scale: self.scale,
            dx_feature_level: match self.dx_feature_level {
                Some(s) => Some(s@),
                None => None,
            },
        }
    }
}

impl View for TargetDeviceFamily {
    type V = TargetDeviceFamilyV;

    open spec fn view(&self) -> TargetDeviceFamilyV {
        TargetDeviceFamilyV {
            name: self.name@,
            min_version: self.min_version@,
            max_version_tested: self.max_version_tested@,
        }
    }
}

impl View for Capability {
    type V = CapabilityV;

    open spec fn view(&self) -> CapabilityV {
        match self {
            Capability::Capability { name } => CapabilityV::Capability { name: name@ },
            Capability::Restricted { name } => CapabilityV::Restricted { name: name@ },
            Capability::Device { name } => CapabilityV::Device { name: name@ },
        }
    }
}

impl View for Application {
    type V = ApplicationV;

    open spec fn view(&self) -> ApplicationV {
        ApplicationV {
            id: self.id@,
            executable: match self.executable {
                Some(s) => Some(s@),
                None => None,
            },
            entry_point: match self.entry_point {
                Some(s) => Some(s@),
                None => None,
            },
            visual_elements: self.visual_elements@,
        }
    }
}

impl View for VisualElements {
    type V = VisualElementsV;

    open spec fn view(&self) -> VisualElementsV {
        VisualElementsV {
            display_name: self.display_name@,
            description: self.description@,
            background_color: self.background_color@,
            logo_150x150: self.logo_150x150@,
            logo_44x44: self.logo_44x44@,
            default_tile: match self.default_tile {
                Some(t) => Some(t@),
                None => None,
            },
            splash_screen: match self.splash_screen {
                Some(s) => Some(s@),
                None => None,
            },
            lock_screen: match self.lock_screen {
                Some(l) => Some(l@),
                None => None,
            },
        }
    }
}

impl View for DefaultTile {
    type V = DefaultTileV;

    open spec fn view(&self) -> DefaultTileV {
        DefaultTileV {
            short_name: match self.short_name {
                Some(s) => Some(s@),
                None => None,
            },
            logo_71x71: match self.logo_71x71 {
                Some(s) => Some(s@),
                None => None,
            },
            logo_310x310: match self.logo_310x310 {
                Some(s) => Some(s@),
                None => None,
            },
            logo_310x150: match self.logo_310x150 {
                Some(s) => Some(s@),
                None => None,
            },
            show_names_on_tiles: self.show_names_on_tiles@,
        }
    }
}

impl View for ShowNameOnTiles {
    type V = Seq<ShowOnV>;

    open spec fn view(&self) -> Seq<ShowOnV> {
        self.show_on@.map_values(|s: ShowOn| s@)
    }
}

impl View for ShowOn {
    type V = ShowOnV;

    open spec fn view(&self) -> ShowOnV {
        ShowOnV { tile: self.tile@ }
    }
}

impl View for SplashScreen {
    type V = SplashScreenV;

    open spec fn view(&self) -> SplashScreenV {
        SplashScreenV { image: self.image@ }
    }
}

impl View for LockScreen {
    type V = LockScreenV;

    open spec fn view(&self) -> LockScreenV {
        LockScreenV {
            badge_logo: self.badge_logo@,
            notification: self.notification@,
        }
    }
}

/// The document-level cardinality rule: the first bound a manifest
/// violates, checked in schema order, or nothing when all sequence fields
/// are within bounds. Applications must hold 1 to 100 entries, resources
/// 0 to 200, and target device families 1 to 128.
pub open spec fn cardinality_fault(m: AppxManifest) -> Option<ErrorSpec> {
    if m.applications.application@.len() < 1 || m.applications.application@.len() > 100 {
        Some(
            ErrorSpec::CardinalityViolation {
                field: "application"@,
                min: 1,
                max: 100,
                actual: m.applications.application@.len(),
            },
        )
    } else if m.resources.resource@.len() > 200 {
        Some(
            ErrorSpec::CardinalityViolation {
                field: "resource"@,
                min: 0,
                max: 200,
                actual: m.resources.resource@.len(),
            },
        )
    } else if m.dependencies.target_device_family@.len() < 1
        || m.dependencies.target_device_family@.len() > 128 {
        Some(
            ErrorSpec::CardinalityViolation {
                field: "target_device_family"@,
                min: 1,
                max: 128,
                actual: m.dependencies.target_device_family@.len(),
            },
        )
    } else {
        None
    }
}

impl AppxManifest {
    /// Checks the document-level cardinality bounds. Succeeds exactly when
    /// every sequence field is within its schema bounds; otherwise reports
    /// the first violated bound with the field, the bound and the actual
    /// count.
    pub fn validate(&self) -> (r: Result<(), Error>)
        ensures
            match r {
                Ok(()) => cardinality_fault(*self) is None,
                Err(e) => cardinality_fault(*self) == Some(e@),
            },
    {
        let n_app = self.applications.application.len();
        if n_app < 1 || n_app > 100 {
            return Err(
                Error::CardinalityViolation {
                    field: String::from_str("application"),
                    min: 1,
                    max: 100,
                    actual: n_app,
                },
            );
        }
        let n_res = self.resources.resource.len();
        if n_res > 200 {
            return Err(
                Error::CardinalityViolation {
                    field: String::from_str("resource"),
                    min: 0,
                    max: 200,
                    actual: n_res,
                },
            );
        }
        let n_tdf = self.dependencies.target_device_family.len();
        if n_tdf < 1 || n_tdf > 128 {
            return Err(
                Error::CardinalityViolation {
                    field: String::from_str("target_device_family"),
                    min: 1,
                    max: 128,
                    actual: n_tdf,
                },
            );
        }
        Ok(())
    }
}

impl Default for AppxManifest {
    /// An empty manifest carrying the three default namespaces.
    fn default() -> (r: Self)
        ensures
            r.ns@ == "http://schemas.microsoft.com/appx/manifest/foundation/windows10"@,
            r.ns_uap@ == "http://schemas.microsoft.com/appx/manifest/uap/windows10"@,
            r.ns_rescap@ == "http://schemas.microsoft.com/appx/manifest/foundation/windows10/restrictedcapabilities"@,
            r.identity.name@ == Seq::<char>::empty(),
            r.identity.version@ == Seq::<char>::empty(),
            r.identity.publisher@ == Seq::<char>::empty(),
            r.identity.processor_architecture is None,
            r.properties.display_name@ == Seq::<char>::empty(),
            r.properties.publisher_display_name@ == Seq::<char>::empty(),
            r.properties.logo@ == Seq::<char>::empty(),
            r.properties.description is None,
            r.resources.resource@ == Seq::<Resource>::empty(),
            r.dependencies.target_device_family@ == Seq::<TargetDeviceFamily>::empty(),
            r.capabilities@ == Seq::<Capability>::empty(),
            r.applications.application@ == Seq::<Application>::empty(),
    {
        AppxManifest {
            ns: crate::default_namespace(),
            ns_uap: crate::default_uap_namespace(),
            ns_rescap: crate::default_rescap_namespace(),
            identity: Identity::default(),
            properties: Properties::default(),
            resources: Resources::default(),
            dependencies: Dependencies::default(),
            capabilities: Vec::new(),
            applications: Applications::default(),
        }
    }
}

impl Default for Applications {
    fn default() -> (r: Self)
        ensures
            r.application@ == Seq::<Application>::empty(),
    {
        Applications { application: Vec::new() }
    }
}

impl Default for Resources {
    fn default() -> (r: Self)
        ensures
            r.resource@ == Seq::<Resource>::empty(),
    {
        Resources { resource: Vec::new() }
    }
}

impl Default for Dependencies {
    fn default() -> (r: Self)
        ensures
            r.target_device_family@ == Seq::<TargetDeviceFamily>::empty(),
    {
        Dependencies { target_device_family: Vec::new() }
    }
}

impl Default for Identity {
    fn default() -> (r: Self)
        ensures
            r.name@ == Seq::<char>::empty(),
            r.version@ == Seq::<char>::empty(),
            r.publisher@ == Seq::<char>::empty(),
            r.processor_architecture is None,
    {
        Identity {
            name: String::new(),
            version: String::new(),
            publisher: String::new(),
            processor_architecture: None,
        }
    }
}

impl Default for Properties {
    fn default() -> (r: Self)
        ensures
            r.display_name@ == Seq::<char>::empty(),
            r.publisher_display_name@ == Seq::<char>::empty(),
            r.logo@ == Seq::<char>::empty(),
            r.description is None,
    {
        Properties {
            display_name: String::new(),
            publisher_display_name: String::new(),
            logo: String::new(),
            description: None,
        }
    }
}

impl Default for TargetDeviceFamily {
    /// The compatibility default. The minimum version is mandated by the
    /// external installer, which rejects a smaller minimum for manifests
    /// that declare a resource element; the literals must stay exact.
    fn default() -> (r: Self)
        ensures
            r.name@ == "Windows.Desktop"@,
            r.min_version@ == "10.0.16300.0"@,
            r.max_version_tested@ == "10.0.20348.0"@,
    {
        TargetDeviceFamily {
            name: String::from_str("Windows.Desktop"),
            min_version: String::from_str("10.0.16300.0"),
            max_version_tested: String::from_str("10.0.20348.0"),
        }
    }
}

impl Default for ApplicationKind {
    fn default() -> (r: Self)
        ensures
            r is Broken,
    {
        ApplicationKind::Broken
    }
}

impl Default for Application {
    fn default() -> (r: Self)
        ensures
            r.id@ == Seq::<char>::empty(),
            r.executable is None,
            r.entry_point is None,
            r.visual_elements.display_name@ == Seq::<char>::empty(),
            r.visual_elements.description@ == Seq::<char>::empty(),
            r.visual_elements.background_color@ == Seq::<char>::empty(),
            r.visual_elements.logo_150x150@ == Seq::<char>::empty(),
            r.visual_elements.logo_44x44@ == Seq::<char>::empty(),
            r.visual_elements.default_tile is None,
            r.visual_elements.splash_screen is None,
            r.visual_elements.lock_screen is None,
    {
        Application {
            id: String::new(),
            executable: None,
            entry_point: None,
            visual_elements: VisualElements::default(),
        }
    }
}

impl Default for VisualElements {
    fn default() -> (r: Self)
        ensures
            r.display_name@ == Seq::<char>::empty(),
            r.description@ == Seq::<char>::empty(),
            r.background_color@ == Seq::<char>::empty(),
            r.logo_150x150@ == Seq::<char>::empty(),
            r.logo_44x44@ == Seq::<char>::empty(),
            r.default_tile is None,
            r.splash_screen is None,
            r.lock_screen is None,
    {
        VisualElements {
            display_name: String::new(),
            description: String::new(),
            background_color: String::new(),
            logo_150x150: String::new(),
            logo_44x44: String::new(),
            default_tile: None,
            splash_screen: None,
            lock_screen: None,
        }
    }
}

impl Default for DefaultTile {
    fn default() -> (r: Self)
        ensures
            r.short_name is None,
            r.logo_71x71 is None,
            r.logo_310x310 is None,
            r.logo_310x150 is None,
            r.show_names_on_tiles.show_on@ == Seq::<ShowOn>::empty(),
    {
        DefaultTile {
            short_name: None,
            logo_71x71: None,
            logo_310x310: None,
            logo_310x150: None,
            show_names_on_tiles: ShowNameOnTiles::default(),
        }
    }
}

impl Default for ShowNameOnTiles {
    fn default() -> (r: Self)
        ensures
            r.show_on@ == Seq::<ShowOn>::empty(),
    {
        ShowNameOnTiles { show_on: Vec::new() }
    }
}

impl Default for ShowOn {
    fn default() -> (r: Self)
        ensures
            r.tile@ == Seq::<char>::empty(),
    {
        ShowOn { tile: String::new() }
    }
}

impl Default for SplashScreen {
    fn default() -> (r: Self)
        ensures
            r.image@ == Seq::<char>::empty(),
    {
        SplashScreen { image: String::new() }
    }
}

impl Default for LockScreen {
    fn default() -> (r: Self)
        ensures
            r.badge_logo@ == Seq::<char>::empty(),
            r.notification@ == Seq::<char>::empty(),
    {
        LockScreen {
            badge_logo: String::new(),
            notification: String::new(),
        }
    }
}

} // verus!
