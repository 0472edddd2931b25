//! The strict encoder.
//!
//! Encoding renders the typed model as one namespaced document. The output
//! vocabulary is fixed here and is independent of the decode vocabulary:
//! field names appear capitalized, some fields carry per-field override
//! tags, the root injects three namespace declarations, and each capability
//! variant encodes under its own tag. Scalar fields render as attributes
//! except where the schema mandates a single child element.
//!
//! Every `*_xml` spec function below states the exact character sequence an
//! encoded value produces; the writers are proved to emit exactly that.

use vstd::prelude::*;

use crate::model::{
    Application, Applications, AppxManifest, Capability, DefaultTile, Dependencies, Identity,
    LockScreen, Properties, Resource, Resources, ShowNameOnTiles, ShowOn, SplashScreen,
    TargetDeviceFamily, VisualElements,
};

verus! {

/// One rendered attribute: a space, the attribute name, `="`, the value,
/// and a closing quote.
pub open spec fn attr(name: Seq<char>, val: Seq<char>) -> Seq<char> {
    " "@ + name + "=\""@ + val + "\""@
}

/// An optional attribute: absent values render nothing.
pub open spec fn opt_attr(name: Seq<char>, val: Option<String>) -> Seq<char> {
    match val {
        Some(s) => attr(name, s@),
        None => Seq::<char>::empty(),
    }
}

/// An optional numeric attribute: absent values render nothing.
pub open spec fn opt_num_attr(name: Seq<char>, val: Option<u32>) -> Seq<char> {
    match val {
        Some(n) => " "@ + name + "=\""@ + udec(n as nat) + "\""@,
        None => Seq::<char>::empty(),
    }
}

/// A scalar forced into exactly one child element: the open tag, the
/// value, the close tag.
pub open spec fn child_elem(open: Seq<char>, val: Seq<char>, close: Seq<char>) -> Seq<char> {
    open + val + close
}

/// The singleton-element wrapper over an optional scalar. Policy for the
/// absent case: no element is emitted at all; an absent value never
/// produces an empty element.
pub open spec fn opt_child_elem(open: Seq<char>, val: Option<String>, close: Seq<char>) -> Seq<
    char,
> {
    match val {
        Some(s) => child_elem(open, s@, close),
        None => Seq::<char>::empty(),
    }
}

/// The decimal digit `d` as a character.
pub open spec fn dec_digit(d: nat) -> char {
    if d == 0 {
        '0'
    } else if d == 1 {
        '1'
    } else if d == 2 {
        '2'
    } else if d == 3 {
        '3'
    } else if d == 4 {
        '4'
    } else if d == 5 {
        '5'
    } else if d == 6 {
        '6'
    } else if d == 7 {
        '7'
    } else if d == 8 {
        '8'
    } else {
        '9'
    }
}

/// The decimal rendering of `n`, most significant digit first, with no
/// leading zeros (a lone zero for zero itself).
pub open spec fn udec(n: nat) -> Seq<char>
    decreases n,
{
    if n < 10 {
        seq![dec_digit(n)]
    } else {
        udec(n / 10) + seq![dec_digit(n % 10)]
    }
}

fn push_digit(out: &mut String, d: u32)
    requires
        d < 10,
    ensures
        final(out)@ == old(out)@ + seq![dec_digit(d as nat)],
{
    if d == 0 {
        out.append("0");
        proof {
            reveal_strlit("0");
            assert(out@ =~= old(out)@ + seq![dec_digit(d as nat)]);
        }
    } else if d == 1 {
        out.append("1");
        proof {
            reveal_strlit("1");
            assert(out@ =~= old(out)@ + seq![dec_digit(d as nat)]);
        }
    } else if d == 2 {
        out.append("2");
        proof {
            reveal_strlit("2");
            assert(out@ =~= old(out)@ + seq![dec_digit(d as nat)]);
        }
    } else if d == 3 {
        out.append("3");
        proof {
            reveal_strlit("3");
            assert(out@ =~= old(out)@ + seq![dec_digit(d as nat)]);
        }
    } else if d == 4 {
        out.append("4");
        proof {
            reveal_strlit("4");
            assert(out@ =~= old(out)@ + seq![dec_digit(d as nat)]);
        }
    } else if d == 5 {
        out.append("5");
        proof {
            reveal_strlit("5");
            assert(out@ =~= old(out)@ + seq![dec_digit(d as nat)]);
        }
    } else if d == 6 {
        out.append("6");
        proof {
            reveal_strlit("6");
            assert(out@ =~= old(out)@ + seq![dec_digit(d as nat)]);
        }
    } else if d == 7 {
        out.append("7");
        proof {
            reveal_strlit("7");
            assert(out@ =~= old(out)@ + seq![dec_digit(d as nat)]);
        }
    } else if d == 8 {
        out.append("8");
        proof {
            reveal_strlit("8");
            assert(out@ =~= old(out)@ + seq![dec_digit(d as nat)]);
        }
    } else {
        out.append("9");
        proof {
            reveal_strlit("9");
            assert(out@ =~= old(out)@ + seq![dec_digit(d as nat)]);
        }
    }
}

fn push_udec(out: &mut String, n: u32)
    ensures
        final(out)@ == old(out)@ + udec(n as nat),
    decreases n,
{
    if n < 10 {
        push_digit(out, n);
    } else {
        let q = n / 10;
        let r = n % 10;
        proof {
            assert(q < n) by (nonlinear_arith)
                requires
                    n >= 10,
                    q == n / 10,
            ;
        }
        push_udec(out, q);
        push_digit(out, r);
        assert(out@ =~= old(out)@ + udec(n as nat));
    }
}

fn push_attr(out: &mut String, name: &str, val: &str)
    ensures
        final(out)@ == old(out)@ + attr(name@, val@),
{
    out.append(" ");
    out.append(name);
    out.append("=\"");
    out.append(val);
    out.append("\"");
    assert(out@ =~= old(out)@ + attr(name@, val@));
}

fn push_opt_attr(out: &mut String, name: &str, val: &Option<String>)
    ensures
        final(out)@ == old(out)@ + opt_attr(name@, *val),
{
    match val {
        Some(s) => {
            push_attr(out, name, s.as_str());
        },
        None => {
            assert(out@ =~= old(out)@ + opt_attr(name@, *val));
        },
    }
}

fn push_opt_num_attr(out: &mut String, name: &str, val: &Option<u32>)
    ensures
        final(out)@ == old(out)@ + opt_num_attr(name@, *val),
{
    match val {
        Some(n) => {
            out.append(" ");
            out.append(name);
            out.append("=\"");
            push_udec(out, *n);
            out.append("\"");
            assert(out@ =~= old(out)@ + opt_num_attr(name@, *val));
        },
        None => {
            assert(out@ =~= old(out)@ + opt_num_attr(name@, *val));
        },
    }
}

fn push_opt_child_elem(out: &mut String, open: &str, val: &Option<String>, close: &str)
    ensures
        final(out)@ == old(out)@ + opt_child_elem(open@, *val, close@),
{
    match val {
        Some(s) => {
            out.append(open);
            out.append(s.as_str());
            out.append(close);
            assert(out@ =~= old(out)@ + opt_child_elem(open@, *val, close@));
        },
        None => {
            assert(out@ =~= old(out)@ + opt_child_elem(open@, *val, close@));
        },
    }
}

/// The encoded identity element: all scalars render as attributes.
pub open spec fn identity_xml(m: Identity) -> Seq<char> {
    "<Identity"@ + attr("Name"@, m.name@) + attr("Version"@, m.version@) + attr(
        "Publisher"@,
        m.publisher@,
    ) + opt_attr("ProcessorArchitecture"@, m.processor_architecture) + "></Identity>"@
}

fn push_identity(out: &mut String, m: &Identity)
    ensures
        final(out)@ == old(out)@ + identity_xml(*m),
{
    out.append("<Identity");
    push_attr(out, "Name", m.name.as_str());
    push_attr(out, "Version", m.version.as_str());
    push_attr(out, "Publisher", m.publisher.as_str());
    push_opt_attr(out, "ProcessorArchitecture", &m.processor_architecture);
    out.append("></Identity>");
    assert(out@ =~= old(out)@ + identity_xml(*m));
}

/// The encoded properties element: every scalar renders as exactly one
/// child element, never as an attribute. An absent description emits no
/// element.
pub open spec fn properties_xml(p: Properties) -> Seq<char> {
    "<Properties>"@ + child_elem("<DisplayName>"@, p.display_name@, "</DisplayName>"@)
        + child_elem("<PublisherDisplayName>"@, p.publisher_display_name@,
    "</PublisherDisplayName>"@) + child_elem("<Logo>"@, p.logo@, "</Logo>"@) + opt_child_elem(
        "<Description>"@,
        p.description,
        "</Description>"@,
    ) + "</Properties>"@
}

fn push_properties(out: &mut String, p: &Properties)
    ensures
        final(out)@ == old(out)@ + properties_xml(*p),
{
    out.append("<Properties>");
    out.append("<DisplayName>");
    out.append(p.display_name.as_str());
    out.append("</DisplayName>");
    out.append("<PublisherDisplayName>");
    out.append(p.publisher_display_name.as_str());
    out.append("</PublisherDisplayName>");
    out.append("<Logo>");
    out.append(p.logo.as_str());
    out.append("</Logo>");
    push_opt_child_elem(out, "<Description>", &p.description, "</Description>");
    out.append("</Properties>");
    assert(out@ =~= old(out)@ + properties_xml(*p));
}

/// The encoded resource element: all scalars render as attributes, two of
/// them under `uap`-prefixed override tags.
pub open spec fn resource_xml(r: Resource) -> Seq<char> {
    "<Resource"@ + opt_attr("Language"@, r.language) + opt_num_attr("uap:Scale"@, r.scale)
        + opt_attr("uap:DXFeatureLevel"@, r.dx_feature_level) + "></Resource>"@
}

fn push_resource(out: &mut String, r: &Resource)
    ensures
        final(out)@ == old(out)@ + resource_xml(*r),
{
    out.append("<Resource");
    push_opt_attr(out, "Language", &r.language);
    push_opt_num_attr(out, "uap:Scale", &r.scale);
    push_opt_attr(out, "uap:DXFeatureLevel", &r.dx_feature_level);
    out.append("></Resource>");
    assert(out@ =~= old(out)@ + resource_xml(*r));
}

/// The encoded resource list, in model order.
pub open spec fn resource_list_xml(rs: Seq<Resource>) -> Seq<char>
    decreases rs.len(),
{
    if rs.len() == 0 {
        Seq::<char>::empty()
    } else {
        resource_list_xml(rs.drop_last()) + resource_xml(rs.last())
    }
}

/// The encoded resources element.
pub open spec fn resources_xml(r: Resources) -> Seq<char> {
    "<Resources>"@ + resource_list_xml(r.resource@) + "</Resources>"@
}

fn push_resources(out: &mut String, r: &Resources)
    ensures
        final(out)@ == old(out)@ + resources_xml(*r),
{
    out.append("<Resources>");
    let n = r.resource.len();
    let mut i: usize = 0;
    while i < n
        invariant
            i <= n,
            n == r.resource.len(),
            out@ == old(out)@ + "<Resources>"@ + resource_list_xml(r.resource@.take(i as int)),
        decreases n - i,
    {
        push_resource(out, &r.resource[i]);
        proof {
            let pre = r.resource@.take(i as int);
            let post = r.resource@.take(i + 1 as int);
            assert(post.drop_last() =~= pre);
            assert(post.last() == r.resource@[i as int]);
            assert(out@ =~= old(out)@ + "<Resources>"@ + resource_list_xml(post));
        }
        i += 1;
    }
    out.append("</Resources>");
    proof {
        assert(r.resource@.take(n as int) =~= r.resource@);
        assert(out@ =~= old(out)@ + resources_xml(*r));
    }
}

/// The encoded target device family element: three required attributes.
pub open spec fn target_device_family_xml(t: TargetDeviceFamily) -> Seq<char> {
    "<TargetDeviceFamily"@ + attr("Name"@, t.name@) + attr("MinVersion"@, t.min_version@) + attr(
        "MaxVersionTested"@,
        t.max_version_tested@,
    ) + "></TargetDeviceFamily>"@
}

fn push_target_device_family(out: &mut String, t: &TargetDeviceFamily)
    ensures
        final(out)@ == old(out)@ + target_device_family_xml(*t),
{
    out.append("<TargetDeviceFamily");
    push_attr(out, "Name", t.name.as_str());
    push_attr(out, "MinVersion", t.min_version.as_str());
    push_attr(out, "MaxVersionTested", t.max_version_tested.as_str());
    out.append("></TargetDeviceFamily>");
    assert(out@ =~= old(out)@ + target_device_family_xml(*t));
}

/// The encoded dependency list, in model order.
pub open spec fn target_device_family_list_xml(ts: Seq<TargetDeviceFamily>) -> Seq<char>
    decreases ts.len(),
{
    if ts.len() == 0 {
        Seq::<char>::empty()
    } else {
        target_device_family_list_xml(ts.drop_last()) + target_device_family_xml(ts.last())
    }
}

/// The encoded dependencies element.
pub open spec fn dependencies_xml(d: Dependencies) -> Seq<char> {
    "<Dependencies>"@ + target_device_family_list_xml(d.target_device_family@) + "</Dependencies>"@
}

fn push_dependencies(out: &mut String, d: &Dependencies)
    ensures
        final(out)@ == old(out)@ + dependencies_xml(*d),
{
    out.append("<Dependencies>");
    let n = d.target_device_family.len();
    let mut i: usize = 0;
    while i < n
        invariant
            i <= n,
            n == d.target_device_family.len(),
            out@ == old(out)@ + "<Dependencies>"@ + target_device_family_list_xml(
                d.target_device_family@.take(i as int),
            ),
        decreases n - i,
    {
        push_target_device_family(out, &d.target_device_family[i]);
        proof {
            let post = d.target_device_family@.take(i + 1 as int);
            assert(post.drop_last() =~= d.target_device_family@.take(i as int));
            assert(post.last() == d.target_device_family@[i as int]);
            assert(out@ =~= old(out)@ + "<Dependencies>"@ + target_device_family_list_xml(post));
        }
        i += 1;
    }
    out.append("</Dependencies>");
    proof {
        assert(d.target_device_family@.take(n as int) =~= d.target_device_family@);
        assert(out@ =~= old(out)@ + dependencies_xml(*d));
    }
}

/// The fixed variant-to-tag table of the capability codec: each variant
/// encodes under its own tag, with the carried string as a `Name`
/// attribute. This table is independent of the decode discriminators.
pub open spec fn capability_xml(c: Capability) -> Seq<char> {
    match c {
        Capability::Capability { name } => "<Capability"@ + attr("Name"@, name@)
            + "></Capability>"@,
        Capability::Restricted { name } => "<rescap:Capability"@ + attr("Name"@, name@)
            + "></rescap:Capability>"@,
        Capability::Device { name } => "<DeviceCapability"@ + attr("Name"@, name@)
            + "></DeviceCapability>"@,
    }
}

fn push_capability(out: &mut String, c: &Capability)
    ensures
        final(out)@ == old(out)@ + capability_xml(*c),
{
    match c {
        Capability::Capability { name } => {
            out.append("<Capability");
            push_attr(out, "Name", name.as_str());
            out.append("></Capability>");
        },
        Capability::Restricted { name } => {
            out.append("<rescap:Capability");
            push_attr(out, "Name", name.as_str());
            out.append("></rescap:Capability>");
        },
        Capability::Device { name } => {
            out.append("<DeviceCapability");
            push_attr(out, "Name", name.as_str());
            out.append("></DeviceCapability>");
        },
    }
    assert(out@ =~= old(out)@ + capability_xml(*c));
}

/// The encoded capability sequence, in model order: the order of
/// capabilities in the output equals their order in the model.
pub open spec fn capability_list_xml(cs: Seq<Capability>) -> Seq<char>
    decreases cs.len(),
{
    if cs.len() == 0 {
        Seq::<char>::empty()
    } else {
        capability_list_xml(cs.drop_last()) + capability_xml(cs.last())
    }
}

fn push_capabilities(out: &mut String, cs: &Vec<Capability>)
    ensures
        final(out)@ == old(out)@ + capability_list_xml(cs@),
{
    let n = cs.len();
    let mut i: usize = 0;
    while i < n
        invariant
            i <= n,
            n == cs.len(),
            out@ == old(out)@ + capability_list_xml(cs@.take(i as int)),
        decreases n - i,
    {
        push_capability(out, &cs[i]);
        proof {
            let post = cs@.take(i + 1 as int);
            assert(post.drop_last() =~= cs@.take(i as int));
            assert(post.last() == cs@[i as int]);
            assert(out@ =~= old(out)@ + capability_list_xml(post));
        }
        i += 1;
    }
    proof {
        assert(cs@.take(n as int) =~= cs@);
    }
}

/// The encoded tile-name list, in model order.
pub open spec fn show_on_list_xml(ss: Seq<ShowOn>) -> Seq<char>
    decreases ss.len(),
{
    if ss.len() == 0 {
        Seq::<char>::empty()
    } else {
        show_on_list_xml(ss.drop_last()) + show_on_xml(ss.last())
    }
}

/// One encoded tile-name element, under its `uap` override tag.
pub open spec fn show_on_xml(s: ShowOn) -> Seq<char> {
    "<uap:ShowOn"@ + attr("Tile"@, s.tile@) + "></uap:ShowOn>"@
}

/// The encoded name-showing element, under its `uap` override tag.
pub open spec fn show_name_on_tiles_xml(s: ShowNameOnTiles) -> Seq<char> {
    "<uap:ShowNameOnTiles>"@ + show_on_list_xml(s.show_on@) + "</uap:ShowNameOnTiles>"@
}

fn push_show_name_on_tiles(out: &mut String, s: &ShowNameOnTiles)
    ensures
        final(out)@ == old(out)@ + show_name_on_tiles_xml(*s),
{
    out.append("<uap:ShowNameOnTiles>");
    let n = s.show_on.len();
    let mut i: usize = 0;
    while i < n
        invariant
            i <= n,
            n == s.show_on.len(),
            out@ == old(out)@ + "<uap:ShowNameOnTiles>"@ + show_on_list_xml(
                s.show_on@.take(i as int),
            ),
        decreases n - i,
    {
        let e = &s.show_on[i];
        out.append("<uap:ShowOn");
        push_attr(out, "Tile", e.tile.as_str());
        out.append("></uap:ShowOn>");
        proof {
            let post = s.show_on@.take(i + 1 as int);
            assert(post.drop_last() =~= s.show_on@.take(i as int));
            assert(post.last() == s.show_on@[i as int]);
            assert(out@ =~= old(out)@ + "<uap:ShowNameOnTiles>"@ + show_on_list_xml(post));
        }
        i += 1;
    }
    out.append("</uap:ShowNameOnTiles>");
    proof {
        assert(s.show_on@.take(n as int) =~= s.show_on@);
        assert(out@ =~= old(out)@ + show_name_on_tiles_xml(*s));
    }
}

/// The encoded default tile, under its `uap` override tag: optional
/// scalars as attributes, the tile-name list as its one child.
pub open spec fn default_tile_xml(t: DefaultTile) -> Seq<char> {
    "<uap:DefaultTile"@ + opt_attr("ShortName"@, t.short_name) + opt_attr(
        "Square71x71Logo"@,
        t.logo_71x71,
    ) + opt_attr("Square310x310Logo"@, t.logo_310x310) + opt_attr(
        "Wide310x150Logo"@,
        t.logo_310x150,
    ) + ">"@ + show_name_on_tiles_xml(t.show_names_on_tiles) + "</uap:DefaultTile>"@
}

fn push_default_tile(out: &mut String, t: &DefaultTile)
    ensures
        final(out)@ == old(out)@ + default_tile_xml(*t),
{
    out.append("<uap:DefaultTile");
    push_opt_attr(out, "ShortName", &t.short_name);
    push_opt_attr(out, "Square71x71Logo", &t.logo_71x71);
    push_opt_attr(out, "Square310x310Logo", &t.logo_310x310);
    push_opt_attr(out, "Wide310x150Logo", &t.logo_310x150);
    out.append(">");
    push_show_name_on_tiles(out, &t.show_names_on_tiles);
    out.append("</uap:DefaultTile>");
    assert(out@ =~= old(out)@ + default_tile_xml(*t));
}

/// The encoded splash screen, under its `uap` override tag.
pub open spec fn splash_screen_xml(s: SplashScreen) -> Seq<char> {
    "<uap:SplashScreen"@ + attr("Image"@, s.image@) + "></uap:SplashScreen>"@
}

/// The encoded lock screen, under its `uap` override tag.
pub open spec fn lock_screen_xml(l: LockScreen) -> Seq<char> {
    "<uap:LockScreen"@ + attr("BadgeLogo"@, l.badge_logo@) + attr("Notification"@, l.notification@)
        + "></uap:LockScreen>"@
}

/// The optional default-tile child: absent values render nothing.
pub open spec fn opt_default_tile_xml(t: Option<DefaultTile>) -> Seq<char> {
    match t {
        Some(t) => default_tile_xml(t),
        None => Seq::<char>::empty(),
    }
}

/// The optional splash-screen child: absent values render nothing.
pub open spec fn opt_splash_screen_xml(s: Option<SplashScreen>) -> Seq<char> {
    match s {
        Some(s) => splash_screen_xml(s),
        None => Seq::<char>::empty(),
    }
}

/// The optional lock-screen child: absent values render nothing.
pub open spec fn opt_lock_screen_xml(l: Option<LockScreen>) -> Seq<char> {
    match l {
        Some(l) => lock_screen_xml(l),
        None => Seq::<char>::empty(),
    }
}

fn push_opt_default_tile(out: &mut String, t: &Option<DefaultTile>)
    ensures
        final(out)@ == old(out)@ + opt_default_tile_xml(*t),
{
    match t {
        Some(t) => push_default_tile(out, t),
        None => {
            assert(out@ =~= old(out)@ + opt_default_tile_xml(*t));
        },
    }
}

fn push_opt_splash_screen(out: &mut String, s: &Option<SplashScreen>)
    ensures
        final(out)@ == old(out)@ + opt_splash_screen_xml(*s),
{
    match s {
        Some(s) => {
            out.append("<uap:SplashScreen");
            push_attr(out, "Image", s.image.as_str());
            out.append("></uap:SplashScreen>");
            assert(out@ =~= old(out)@ + opt_splash_screen_xml(Some(*s)));
        },
        None => {
            assert(out@ =~= old(out)@ + opt_splash_screen_xml(*s));
        },
    }
}

fn push_opt_lock_screen(out: &mut String, l: &Option<LockScreen>)
    ensures
        final(out)@ == old(out)@ + opt_lock_screen_xml(*l),
{
    match l {
        Some(l) => {
            out.append("<uap:LockScreen");
            push_attr(out, "BadgeLogo", l.badge_logo.as_str());
            push_attr(out, "Notification", l.notification.as_str());
            out.append("></uap:LockScreen>");
            assert(out@ =~= old(out)@ + opt_lock_screen_xml(Some(*l)));
        },
        None => {
            assert(out@ =~= old(out)@ + opt_lock_screen_xml(*l));
        },
    }
}

/// The encoded visual elements, under their `uap` override tag: required
/// scalars as attributes (two under square-logo override names), nested
/// records as optional children.
pub open spec fn visual_elements_xml(v: VisualElements) -> Seq<char> {
    "<uap:VisualElements"@ + attr("DisplayName"@, v.display_name@) + attr(
        "Description"@,
        v.description@,
    ) + attr("BackgroundColor"@, v.background_color@) + attr("Square150x150Logo"@, v.logo_150x150@)
        + attr("Square44x44Logo"@, v.logo_44x44@) + ">"@ + opt_default_tile_xml(v.default_tile)
        + opt_splash_screen_xml(v.splash_screen) + opt_lock_screen_xml(v.lock_screen)
        + "</uap:VisualElements>"@
}

#[verifier::rlimit(60)]
fn push_visual_elements(out: &mut String, v: &VisualElements)
    ensures
        final(out)@ == old(out)@ + visual_elements_xml(*v),
{
    out.append("<uap:VisualElements");
    push_attr(out, "DisplayName", v.display_name.as_str());
    push_attr(out, "Description", v.description.as_str());
    push_attr(out, "BackgroundColor", v.background_color.as_str());
    push_attr(out, "Square150x150Logo", v.logo_150x150.as_str());
    push_attr(out, "Square44x44Logo", v.logo_44x44.as_str());
    out.append(">");
    push_opt_default_tile(out, &v.default_tile);
    push_opt_splash_screen(out, &v.splash_screen);
    push_opt_lock_screen(out, &v.lock_screen);
    out.append("</uap:VisualElements>");
    assert(out@ =~= old(out)@ + visual_elements_xml(*v));
}

/// One encoded application: scalars as attributes, the visual elements as
/// its one child.
pub open spec fn application_xml(a: Application) -> Seq<char> {
    "<Application"@ + attr("Id"@, a.id@) + opt_attr("Executable"@, a.executable) + opt_attr(
        "EntryPoint"@,
        a.entry_point,
    ) + ">"@ + visual_elements_xml(a.visual_elements) + "</Application>"@
}

fn push_application(out: &mut String, a: &Application)
    ensures
        final(out)@ == old(out)@ + application_xml(*a),
{
    out.append("<Application");
    push_attr(out, "Id", a.id.as_str());
    push_opt_attr(out, "Executable", &a.executable);
    push_opt_attr(out, "EntryPoint", &a.entry_point);
    out.append(">");
    push_visual_elements(out, &a.visual_elements);
    out.append("</Application>");
    assert(out@ =~= old(out)@ + application_xml(*a));
}

/// The encoded application list, in model order.
pub open spec fn application_list_xml(xs: Seq<Application>) -> Seq<char>
    decreases xs.len(),
{
    if xs.len() == 0 {
        Seq::<char>::empty()
    } else {
        application_list_xml(xs.drop_last()) + application_xml(xs.last())
    }
}

/// The encoded applications element.
pub open spec fn applications_xml(a: Applications) -> Seq<char> {
    "<Applications>"@ + application_list_xml(a.application@) + "</Applications>"@
}

fn push_applications(out: &mut String, a: &Applications)
    ensures
        final(out)@ == old(out)@ + applications_xml(*a),
{
    out.append("<Applications>");
    let n = a.application.len();
    let mut i: usize = 0;
    while i < n
        invariant
            i <= n,
            n == a.application.len(),
            out@ == old(out)@ + "<Applications>"@ + application_list_xml(
                a.application@.take(i as int),
            ),
        decreases n - i,
    {
        push_application(out, &a.application[i]);
        proof {
            let post = a.application@.take(i + 1 as int);
            assert(post.drop_last() =~= a.application@.take(i as int));
            assert(post.last() == a.application@[i as int]);
            assert(out@ =~= old(out)@ + "<Applications>"@ + application_list_xml(post));
        }
        i += 1;
    }
    out.append("</Applications>");
    proof {
        assert(a.application@.take(n as int) =~= a.application@);
        assert(out@ =~= old(out)@ + applications_xml(*a));
    }
}

/// The whole encoded document: the root `Package` element injects the
/// three namespace declarations as attributes, then renders each section
/// in schema order.
pub open spec fn manifest_xml(m: AppxManifest) -> Seq<char> {
    "<Package"@ + attr("xmlns"@, m.ns@) + attr("xmlns:uap"@, m.ns_uap@) + attr(
        "xmlns:rescap"@,
        m.ns_rescap@,
    ) + ">"@ + identity_xml(m.identity) + properties_xml(m.properties) + resources_xml(m.resources)
        + dependencies_xml(m.dependencies) + capability_list_xml(m.capabilities@)
        + applications_xml(m.applications) + "</Package>"@
}

impl AppxManifest {
    /// Encodes the manifest. Encoding is total: it is defined for every
    /// model value and never raises an error.
    pub fn to_xml(&self) -> (r: String)
        ensures
            r@ == manifest_xml(*self),
    {
        let mut out = String::new();
        out.append("<Package");
        push_attr(&mut out, "xmlns", self.ns.as_str());
        push_attr(&mut out, "xmlns:uap", self.ns_uap.as_str());
        push_attr(&mut out, "xmlns:rescap", self.ns_rescap.as_str());
        out.append(">");
        push_identity(&mut out, &self.identity);
        push_properties(&mut out, &self.properties);
        push_resources(&mut out, &self.resources);
        push_dependencies(&mut out, &self.dependencies);
        push_capabilities(&mut out, &self.capabilities);
        push_applications(&mut out, &self.applications);
        out.append("</Package>");
        assert(out@ =~= manifest_xml(*self));
        out
    }
}

impl Properties {
    /// Encodes the properties element alone.
    pub fn to_xml(&self) -> (r: String)
        ensures
            r@ == properties_xml(*self),
    {
        let mut out = String::new();
        push_properties(&mut out, self);
        assert(out@ =~= properties_xml(*self));
        out
    }
}

impl Capability {
    /// Encodes one capability element alone.
    pub fn to_xml(&self) -> (r: String)
        ensures
            r@ == capability_xml(*self),
    {
        let mut out = String::new();
        push_capability(&mut out, self);
        assert(out@ =~= capability_xml(*self));
        out
    }
}

impl TargetDeviceFamily {
    /// Encodes one target device family element alone.
    pub fn to_xml(&self) -> (r: String)
        ensures
            r@ == target_device_family_xml(*self),
    {
        let mut out = String::new();
        push_target_device_family(&mut out, self);
        assert(out@ =~= target_device_family_xml(*self));
        out
    }
}

} // verus!
