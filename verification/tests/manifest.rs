use msix::{
    Application, Applications, AppxManifest, Capability, DefaultTile, Dependencies, Error, Field,
    Identity, LockScreen, Properties, Resource, Resources, ShowNameOnTiles, ShowOn, SplashScreen,
    TargetDeviceFamily, Value, VisualElements,
};

fn text(s: &str) -> Value {
    Value::text(s)
}

fn field(name: &str, value: Value) -> Field {
    Field::new(name, value)
}

fn record(fields: Vec<Field>) -> Value {
    Value::Record(fields)
}

fn identity_doc() -> Field {
    field(
        "identity",
        record(vec![
            field("name", text("com.example.app")),
            field("version", text("1.0.0.0")),
            field("publisher", text("CN=Example")),
        ]),
    )
}

fn properties_doc() -> Field {
    field(
        "properties",
        record(vec![
            field("display_name", text("Example")),
            field("publisher_display_name", text("Example Corp")),
            field("logo", text("Images\\StoreLogo.png")),
        ]),
    )
}

fn minimal_doc() -> Vec<Field> {
    vec![identity_doc(), properties_doc()]
}

#[test]
fn test_properties() {
    let props = Properties {
        display_name: "".into(),
        publisher_display_name: "".into(),
        logo: "".into(),
        description: Some("".into()),
    };
    let xml = props.to_xml();
    assert_eq!(xml, "<Properties><DisplayName></DisplayName><PublisherDisplayName></PublisherDisplayName><Logo></Logo><Description></Description></Properties>");
}

#[test]
fn test_manifest() {
    let manifest = AppxManifest {
        identity: Identity {
            name: "com.flutter.fluttertodoapp".into(),
            version: "1.0.0.0".into(),
            publisher: "CN=Msix Testing, O=Msix Testing Corporation, S=Some-State, C=US".into(),
            processor_architecture: Some("x64".into()),
        },
        properties: Properties {
            display_name: "fluttertodoapp".into(),
            publisher_display_name: "com.flutter.fluttertodoapp".into(),
            logo: "Images\\StoreLogo.png".into(),
            description: Some("A new Flutter project.".into()),
        },
        resources: Resources {
            resource: vec![Resource {
                language: Some("en".into()),
                scale: None,
                dx_feature_level: None,
            }],
        },
        dependencies: Dependencies {
            target_device_family: vec![Default::default()],
        },
        capabilities: vec![
            Capability::Capability {
                name: "internetClient".into(),
            },
            Capability::Restricted {
                name: "runFullTrust".into(),
            },
            Capability::Device {
                name: "location".into(),
            },
        ],
        applications: Applications {
            application: vec![Application {
                id: "fluttertodoapp".into(),
                executable: Some("todoapp.exe".into()),
                entry_point: Some("Windows.FullTrustApplication".into()),
                visual_elements: VisualElements {
                    background_color: "transparent".into(),
                    display_name: "fluttertodoapp".into(),
                    description: "A new flutter project.".into(),
                    logo_44x44: "Images\\Square44x44Logo.png".into(),
                    logo_150x150: "Images\\Square150x150Logo.png".into(),
                    default_tile: Some(DefaultTile {
                        short_name: Some("fluttertodoapp".into()),
                        logo_71x71: Some("Images\\SmallTile.png".into()),
                        logo_310x310: Some("Images\\LargeTile.png".into()),
                        logo_310x150: Some("Images\\Wide310x150Logo.png".into()),
                        show_names_on_tiles: ShowNameOnTiles {
                            show_on: vec![
                                ShowOn {
                                    tile: "square150x150Logo".into(),
                                },
                                ShowOn {
                                    tile: "square310x310Logo".into(),
                                },
                                ShowOn {
                                    tile: "wide310x150Logo".into(),
                                },
                            ],
                        },
                    }),
                    splash_screen: Some(SplashScreen {
                        image: "Images\\SplashScreen.png".into(),
                    }),
                    lock_screen: Some(LockScreen {
                        badge_logo: "Images\\BadgeLogo.png".into(),
                        notification: "badge".into(),
                    }),
                },
            }],
        },
        ..Default::default()
    };
    let xml = manifest.to_xml();
    println!("{}", xml);
}

#[test]
fn decode_minimal_manifest_defaults() {
    let doc = minimal_doc();
    let m = msix::decode::decode_manifest(&doc).unwrap();
    assert_eq!(m.identity.name, "com.example.app");
    assert_eq!(m.identity.version, "1.0.0.0");
    assert_eq!(m.identity.publisher, "CN=Example");
    assert_eq!(m.identity.processor_architecture, None);
    assert_eq!(m.properties.display_name, "Example");
    assert_eq!(m.properties.description, None);
    assert_eq!(
        m.ns,
        "http://schemas.microsoft.com/appx/manifest/foundation/windows10"
    );
    assert_eq!(
        m.ns_uap,
        "http://schemas.microsoft.com/appx/manifest/uap/windows10"
    );
    assert_eq!(
        m.ns_rescap,
        "http://schemas.microsoft.com/appx/manifest/foundation/windows10/restrictedcapabilities"
    );
    assert_eq!(m.resources.resource.len(), 0);
    assert_eq!(m.dependencies.target_device_family.len(), 0);
    assert_eq!(m.capabilities.len(), 0);
    assert_eq!(m.applications.application.len(), 0);
}

#[test]
fn decode_rejects_unknown_root_field() {
    let mut doc = minimal_doc();
    doc.push(field("extra_stuff", text("x")));
    let err = msix::decode::decode_manifest(&doc).unwrap_err();
    assert_eq!(
        err,
        Error::UnknownField {
            field: "extra_stuff".to_string(),
            container: "package".to_string(),
        }
    );
}

#[test]
fn decode_rejects_unknown_nested_field() {
    let doc = vec![
        identity_doc(),
        field(
            "properties",
            record(vec![
                field("display_name", text("Example")),
                field("publisher_display_name", text("Example Corp")),
                field("logo", text("logo.png")),
                field("colour", text("red")),
            ]),
        ),
    ];
    let err = msix::decode::decode_manifest(&doc).unwrap_err();
    assert_eq!(
        err,
        Error::UnknownField {
            field: "colour".to_string(),
            container: "properties".to_string(),
        }
    );
}

#[test]
fn decode_rejects_unknown_deeply_nested_field() {
    let mut doc = minimal_doc();
    doc.push(field(
        "applications",
        record(vec![field(
            "application",
            Value::List(vec![record(vec![
                field("id", text("app")),
                field(
                    "visual_elements",
                    record(vec![
                        field("display_name", text("a")),
                        field("description", text("b")),
                        field("background_color", text("c")),
                        field("logo_150x150", text("d")),
                        field("logo_44x44", text("e")),
                        field(
                            "default_tile",
                            record(vec![
                                field("show_names_on_tiles", record(vec![])),
                                field("shiny", text("no")),
                            ]),
                        ),
                    ]),
                ),
            ])]),
        )]),
    ));
    let err = msix::decode::decode_manifest(&doc).unwrap_err();
    assert_eq!(
        err,
        Error::UnknownField {
            field: "shiny".to_string(),
            container: "default_tile".to_string(),
        }
    );
}

#[test]
fn decode_reports_missing_required_field() {
    let doc = vec![
        identity_doc(),
        field(
            "properties",
            record(vec![
                field("display_name", text("Example")),
                field("publisher_display_name", text("Example Corp")),
            ]),
        ),
    ];
    let err = msix::decode::decode_manifest(&doc).unwrap_err();
    assert_eq!(
        err,
        Error::MissingRequiredField {
            field: "logo".to_string(),
            container: "properties".to_string(),
        }
    );
}

#[test]
fn decode_reports_missing_identity() {
    let doc = vec![properties_doc()];
    let err = msix::decode::decode_manifest(&doc).unwrap_err();
    assert_eq!(
        err,
        Error::MissingRequiredField {
            field: "identity".to_string(),
            container: "package".to_string(),
        }
    );
}

#[test]
fn decode_reports_type_mismatch() {
    let doc = vec![
        identity_doc(),
        field(
            "properties",
            record(vec![
                field("display_name", Value::UInt(3)),
                field("publisher_display_name", text("Example Corp")),
                field("logo", text("logo.png")),
            ]),
        ),
    ];
    let err = msix::decode::decode_manifest(&doc).unwrap_err();
    assert_eq!(
        err,
        Error::TypeMismatch {
            field: "display_name".to_string(),
            container: "properties".to_string(),
        }
    );
}

#[test]
fn decode_rejects_unrecognized_capability_variant() {
    let mut doc = minimal_doc();
    doc.push(field(
        "capabilities",
        Value::List(vec![record(vec![field(
            "super_power",
            record(vec![field("name", text("x"))]),
        )])]),
    ));
    let err = msix::decode::decode_manifest(&doc).unwrap_err();
    assert_eq!(
        err,
        Error::UnrecognizedVariant {
            discriminator: "super_power".to_string(),
        }
    );
}

#[test]
fn capability_round_trip_tags_and_order() {
    let mut doc = minimal_doc();
    doc.push(field(
        "capabilities",
        Value::List(vec![
            record(vec![field(
                "capability",
                record(vec![field("name", text("internetClient"))]),
            )]),
            record(vec![field(
                "restricted",
                record(vec![field("name", text("runFullTrust"))]),
            )]),
            record(vec![field(
                "device",
                record(vec![field("name", text("location"))]),
            )]),
        ]),
    ));
    let m = msix::decode::decode_manifest(&doc).unwrap();
    assert_eq!(m.capabilities.len(), 3);
    assert!(matches!(&m.capabilities[0], Capability::Capability { name } if name == "internetClient"));
    assert!(matches!(&m.capabilities[1], Capability::Restricted { name } if name == "runFullTrust"));
    assert!(matches!(&m.capabilities[2], Capability::Device { name } if name == "location"));
    assert_eq!(
        m.capabilities[0].to_xml(),
        "<Capability Name=\"internetClient\"></Capability>"
    );
    assert_eq!(
        m.capabilities[1].to_xml(),
        "<rescap:Capability Name=\"runFullTrust\"></rescap:Capability>"
    );
    assert_eq!(
        m.capabilities[2].to_xml(),
        "<DeviceCapability Name=\"location\"></DeviceCapability>"
    );
    let xml = m.to_xml();
    let a = xml.find("<Capability Name=\"internetClient\"></Capability>").unwrap();
    let b = xml.find("<rescap:Capability Name=\"runFullTrust\"></rescap:Capability>").unwrap();
    let c = xml.find("<DeviceCapability Name=\"location\"></DeviceCapability>").unwrap();
    assert!(a < b && b < c);
}

#[test]
fn target_device_family_default_encodes_exact_values() {
    let tdf = TargetDeviceFamily::default();
    assert_eq!(tdf.name, "Windows.Desktop");
    assert_eq!(tdf.min_version, "10.0.16300.0");
    assert_eq!(tdf.max_version_tested, "10.0.20348.0");
    assert_eq!(
        tdf.to_xml(),
        "<TargetDeviceFamily Name=\"Windows.Desktop\" MinVersion=\"10.0.16300.0\" MaxVersionTested=\"10.0.20348.0\"></TargetDeviceFamily>"
    );
}

#[test]
fn default_manifest_encodes_fixed_namespaces() {
    let m = AppxManifest::default();
    let xml = m.to_xml();
    assert!(xml.starts_with("<Package xmlns=\"http://schemas.microsoft.com/appx/manifest/foundation/windows10\" xmlns:uap=\"http://schemas.microsoft.com/appx/manifest/uap/windows10\" xmlns:rescap=\"http://schemas.microsoft.com/appx/manifest/foundation/windows10/restrictedcapabilities\">"));
}

#[test]
fn absent_description_emits_no_element() {
    let props = Properties {
        display_name: "a".into(),
        publisher_display_name: "b".into(),
        logo: "c.png".into(),
        description: None,
    };
    let xml = props.to_xml();
    assert_eq!(
        xml,
        "<Properties><DisplayName>a</DisplayName><PublisherDisplayName>b</PublisherDisplayName><Logo>c.png</Logo></Properties>"
    );
}

#[test]
fn resource_scale_renders_decimal() {
    let m = AppxManifest {
        resources: Resources {
            resource: vec![
                Resource {
                    language: Some("en".into()),
                    scale: Some(150),
                    dx_feature_level: Some("dx11".into()),
                },
                Resource {
                    language: None,
                    scale: Some(0),
                    dx_feature_level: None,
                },
                Resource {
                    language: None,
                    scale: Some(4294967295),
                    dx_feature_level: None,
                },
            ],
        },
        ..Default::default()
    };
    let xml = m.to_xml();
    assert!(xml.contains(
        "<Resource Language=\"en\" uap:Scale=\"150\" uap:DXFeatureLevel=\"dx11\"></Resource>"
    ));
    assert!(xml.contains("<Resource uap:Scale=\"0\"></Resource>"));
    assert!(xml.contains("<Resource uap:Scale=\"4294967295\"></Resource>"));
}

fn one_application() -> Application {
    Application {
        id: "app".to_string(),
        executable: None,
        entry_point: None,
        visual_elements: VisualElements::default(),
    }
}

fn valid_manifest() -> AppxManifest {
    AppxManifest {
        applications: Applications {
            application: vec![one_application()],
        },
        dependencies: Dependencies {
            target_device_family: vec![TargetDeviceFamily::default()],
        },
        ..Default::default()
    }
}

#[test]
fn validate_accepts_within_bounds() {
    assert_eq!(valid_manifest().validate(), Ok(()));
}

#[test]
fn validate_rejects_zero_applications() {
    let mut m = valid_manifest();
    m.applications.application.clear();
    assert_eq!(
        m.validate(),
        Err(Error::CardinalityViolation {
            field: "application".to_string(),
            min: 1,
            max: 100,
            actual: 0,
        })
    );
}

#[test]
fn validate_rejects_101_applications() {
    let mut m = valid_manifest();
    m.applications.application = (0..101).map(|_| one_application()).collect();
    assert_eq!(
        m.validate(),
        Err(Error::CardinalityViolation {
            field: "application".to_string(),
            min: 1,
            max: 100,
            actual: 101,
        })
    );
}

#[test]
fn validate_rejects_201_resources() {
    let mut m = valid_manifest();
    m.resources.resource = (0..201)
        .map(|_| Resource {
            language: None,
            scale: None,
            dx_feature_level: None,
        })
        .collect();
    assert_eq!(
        m.validate(),
        Err(Error::CardinalityViolation {
            field: "resource".to_string(),
            min: 0,
            max: 200,
            actual: 201,
        })
    );
}

#[test]
fn validate_rejects_empty_dependencies() {
    let mut m = valid_manifest();
    m.dependencies.target_device_family.clear();
    assert_eq!(
        m.validate(),
        Err(Error::CardinalityViolation {
            field: "target_device_family".to_string(),
            min: 1,
            max: 128,
            actual: 0,
        })
    );
}

#[test]
fn validate_rejects_129_device_families() {
    let mut m = valid_manifest();
    m.dependencies.target_device_family =
        (0..129).map(|_| TargetDeviceFamily::default()).collect();
    assert_eq!(
        m.validate(),
        Err(Error::CardinalityViolation {
            field: "target_device_family".to_string(),
            min: 1,
            max: 128,
            actual: 129,
        })
    );
}

#[test]
fn full_document_round_trip() {
    let doc = vec![
        identity_doc(),
        properties_doc(),
        field(
            "resources",
            record(vec![field(
                "resource",
                Value::List(vec![record(vec![field("language", text("en"))])]),
            )]),
        ),
        field(
            "dependencies",
            record(vec![field(
                "target_device_family",
                Value::List(vec![record(vec![
                    field("name", text("Windows.Desktop")),
                    field("min_version", text("10.0.16300.0")),
                    field("max_version_tested", text("10.0.20348.0")),
                ])]),
            )]),
        ),
        field(
            "capabilities",
            Value::List(vec![record(vec![field(
                "capability",
                record(vec![field("name", text("internetClient"))]),
            )])]),
        ),
        field(
            "applications",
            record(vec![field(
                "application",
                Value::List(vec![record(vec![
                    field("id", text("app")),
                    field("executable", text("app.exe")),
                    field(
                        "visual_elements",
                        record(vec![
                            field("display_name", text("App")),
                            field("description", text("An app.")),
                            field("background_color", text("transparent")),
                            field("logo_150x150", text("150.png")),
                            field("logo_44x44", text("44.png")),
                            field(
                                "splash_screen",
                                record(vec![field("image", text("splash.png"))]),
                            ),
                        ]),
                    ),
                ])]),
            )]),
        ),
    ];
    let m = msix::decode::decode_manifest(&doc).unwrap();
    assert_eq!(m.validate(), Ok(()));
    let xml = m.to_xml();
    assert!(xml.starts_with("<Package xmlns=\""));
    assert!(xml.ends_with("</Package>"));
    assert!(xml.contains("<Identity Name=\"com.example.app\" Version=\"1.0.0.0\" Publisher=\"CN=Example\"></Identity>"));
    assert!(xml.contains("<Resources><Resource Language=\"en\"></Resource></Resources>"));
    assert!(xml.contains("<Application Id=\"app\" Executable=\"app.exe\">"));
    assert!(xml.contains("<uap:VisualElements DisplayName=\"App\" Description=\"An app.\" BackgroundColor=\"transparent\" Square150x150Logo=\"150.png\" Square44x44Logo=\"44.png\">"));
    assert!(xml.contains("<uap:SplashScreen Image=\"splash.png\"></uap:SplashScreen>"));
}

#[test]
fn duplicate_field_first_occurrence_wins() {
    let doc = vec![
        identity_doc(),
        field(
            "properties",
            record(vec![
                field("display_name", text("first")),
                field("display_name", text("second")),
                field("publisher_display_name", text("p")),
                field("logo", text("l")),
            ]),
        ),
    ];
    let m = msix::decode::decode_manifest(&doc).unwrap();
    assert_eq!(m.properties.display_name, "first");
}

#[test]
fn default_tile_round_trip() {
    let mut doc = minimal_doc();
    doc.push(field(
        "applications",
        record(vec![field(
            "application",
            Value::List(vec![record(vec![
                field("id", text("app")),
                field(
                    "visual_elements",
                    record(vec![
                        field("display_name", text("a")),
                        field("description", text("b")),
                        field("background_color", text("c")),
                        field("logo_150x150", text("d")),
                        field("logo_44x44", text("e")),
                        field(
                            "default_tile",
                            record(vec![
                                field("short_name", text("app")),
                                field(
                                    "show_names_on_tiles",
                                    record(vec![field(
                                        "show_on",
                                        Value::List(vec![record(vec![field(
                                            "tile",
                                            text("square150x150Logo"),
                                        )])]),
                                    )]),
                                ),
                            ]),
                        ),
                    ]),
                ),
            ])]),
        )]),
    ));
    let m = msix::decode::decode_manifest(&doc).unwrap();
    let xml = m.to_xml();
    assert!(xml.contains("<uap:DefaultTile ShortName=\"app\"><uap:ShowNameOnTiles><uap:ShowOn Tile=\"square150x150Logo\"></uap:ShowOn></uap:ShowNameOnTiles></uap:DefaultTile>"));
}
