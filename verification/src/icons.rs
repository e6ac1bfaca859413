//! Where the picker takes an application's icon from: a configured override,
//! the logo that a packaged application's manifest names, the executable,
//! the window.
use crate::ordered::{text_entries, text_map_get_index, text_map_len};
use crate::text::{chars_of, lowercase, lowercase_of, str_eq};
use indexmap::IndexMap;
use vstd::prelude::*;
use vstd::string::StringExecFns;
use xml::reader::XmlEvent;
use xml::EventReader;

verus! {

/// One event of a manifest, as far as the logo search reads it.
#[derive(Debug)]
pub enum XmlItem {
    /// An element starts: its local name, and the local name and value of
    /// each attribute.
    Start { name: String, attributes: Vec<(String, String)> },
    /// An element ends.
    End,
    /// Any other event.
    Other,
}

/// The mathematical content of an `XmlItem`.
pub enum XmlItemModel {
    Start { name: Seq<char>, attributes: Seq<(Seq<char>, Seq<char>)> },
    End,
    Other,
}

impl View for XmlItem {
    type V = XmlItemModel;

    open spec fn view(&self) -> XmlItemModel {
        match self {
            XmlItem::Start { name, attributes } => XmlItemModel::Start {
                name: name@,
                attributes: attributes.deep_view(),
            },
            XmlItem::End => XmlItemModel::End,
            XmlItem::Other => XmlItemModel::Other,
        }
    }
}

/// The models of the events.
pub open spec fn item_views(items: Seq<XmlItem>) -> Seq<XmlItemModel> {
    Seq::new(items.len(), |i: int| items[i]@)
}

/// The events that the XML parser gives for a document, up to its first error.
pub uninterp spec fn xml_events(data: Seq<u8>) -> Seq<XmlItemModel>;

/// `EventReader::new` of the `xml` crate over the bytes, iterated until it
/// ends or fails: the events in order, each reduced to what the logo search
/// reads. The events of a document are named, not spelled out.
#[verifier::external_body]
pub(crate) fn read_events(data: &[u8]) -> (r: Vec<XmlItem>)
    ensures
        item_views(r@) == xml_events(data@),
{
    EventReader::new(data).into_iter().map_while(|e| e.ok()).map(
        |e|
            match e {
                XmlEvent::StartElement { name, attributes, .. } => XmlItem::Start {
                    name: name.local_name,
                    attributes: attributes.into_iter().map(|a| (a.name.local_name, a.value)).collect(),
                },
                XmlEvent::EndElement { .. } => XmlItem::End,
                _ => XmlItem::Other,
            },
    ).collect()
}

/// The element path of an application entry.
pub open spec fn application_path() -> Seq<Seq<char>> {
    seq!["Package"@, "Applications"@, "Application"@]
}

/// The element path of an application's visual elements.
pub open spec fn visual_elements_path() -> Seq<Seq<char>> {
    seq!["Package"@, "Applications"@, "Application"@, "VisualElements"@]
}

/// Whether an attribute names a logo.
pub open spec fn is_logo_name(name: Seq<char>) -> bool {
    name == "Square44x44Logo"@ || name == "Square30x30Logo"@ || name == "SmallLogo"@
}

/// Whether, among the first `n` attributes, one says that the entry is for
/// this executable.
pub open spec fn names_executable(attributes: Seq<(Seq<char>, Seq<char>)>, executable: Seq<char>, n: int) -> bool {
    exists|i: int|
        0 <= i < n && (#[trigger] attributes[i]).0 == "Executable"@ && attributes[i].1 == executable
}

/// The value of the first logo attribute from position `from` on.
pub open spec fn logo_value(attributes: Seq<(Seq<char>, Seq<char>)>, from: int) -> Option<Seq<char>>
    decreases attributes.len() - from,
{
    if from < 0 || from >= attributes.len() {
        None
    } else if is_logo_name(attributes[from].0) {
        Some(attributes[from].1)
    } else {
        logo_value(attributes, from + 1)
    }
}

/// The logo that the events from position `from` on name for the
/// executable, read with the element path and the match so far: the first
/// logo attribute of the visual elements of an application entry whose
/// `Executable` attribute is the executable.
pub open spec fn logo_from(
    events: Seq<XmlItemModel>,
    executable: Seq<char>,
    from: int,
    path: Seq<Seq<char>>,
    matched: bool,
) -> Option<Seq<char>>
    decreases events.len() - from,
{
    if from < 0 || from >= events.len() {
        None
    } else {
        match events[from] {
            XmlItemModel::Start { name, attributes } => {
                let inner = path.push(name);
                if inner == application_path() {
                    logo_from(
                        events,
                        executable,
                        from + 1,
                        inner,
                        names_executable(attributes, executable, attributes.len() as int),
                    )
                } else if inner == visual_elements_path() && matched {
                    match logo_value(attributes, 0) {
                        Some(v) => Some(v),
                        None => logo_from(events, executable, from + 1, inner, matched),
                    }
                } else {
                    logo_from(events, executable, from + 1, inner, matched)
                }
            },
            XmlItemModel::End => logo_from(
                events,
                executable,
                from + 1,
                if path.len() > 0 {
                    path.drop_last()
                } else {
                    path
                },
                matched,
            ),
            XmlItemModel::Other => logo_from(events, executable, from + 1, path, matched),
        }
    }
}

/// The logo that a manifest's events name for an executable.
pub open spec fn spec_find_logo(events: Seq<XmlItemModel>, executable: Seq<char>) -> Option<Seq<char>> {
    logo_from(events, executable, 0, Seq::empty(), false)
}

fn path_is(path: &Vec<String>, a: &str, b: &str, c: &str, d: Option<&str>) -> (r: bool)
    ensures
        r == (path.deep_view() == match d {
            Some(last) => seq![a@, b@, c@, last@],
            None => seq![a@, b@, c@],
        }),
{
    let ghost expected = match d {
        Some(last) => seq![a@, b@, c@, last@],
        None => seq![a@, b@, c@],
    };
    let wanted: usize = match d {
        Some(_) => 4,
        None => 3,
    };
    if path.len() != wanted {
        assert(path.deep_view().len() != expected.len());
        return false;
    }
    proof {
        assert(path.deep_view()[0] == path@[0]@);
        assert(path.deep_view()[1] == path@[1]@);
        assert(path.deep_view()[2] == path@[2]@);
    }
    if !(str_eq(path[0].as_str(), a) && str_eq(path[1].as_str(), b) && str_eq(path[2].as_str(), c)) {
        assert(path.deep_view() != expected) by {
            if path.deep_view() == expected {
                assert(expected[0] == a@ && expected[1] == b@ && expected[2] == c@);
            }
        }
        return false;
    }
    match d {
        Some(last) => {
            proof {
                assert(path.deep_view()[3] == path@[3]@);
            }
            let same = str_eq(path[3].as_str(), last);
            proof {
                if same {
                    assert(path.deep_view() =~= expected);
                } else {
                    if path.deep_view() == expected {
                        assert(expected[3] == last@);
                    }
                }
            }
            same
        },
        None => {
            proof {
                assert(path.deep_view() =~= expected);
            }
            true
        },
    }
}

fn has_executable(attributes: &Vec<(String, String)>, executable: &str) -> (r: bool)
    ensures
        r == names_executable(attributes.deep_view(), executable@, attributes.len() as int),
{
    let mut i: usize = 0;
    while i < attributes.len()
        invariant
            0 <= i <= attributes.len(),
            !names_executable(attributes.deep_view(), executable@, i as int),
        decreases attributes.len() - i,
    {
        proof {
            assert(attributes.deep_view()[i as int] == (attributes@[i as int].0@, attributes@[i as int].1@));
        }
        if str_eq(attributes[i].0.as_str(), "Executable") && str_eq(
            attributes[i].1.as_str(),
            executable,
        ) {
            return true;
        }
        i += 1;
    }
    false
}

fn first_logo(attributes: &Vec<(String, String)>) -> (r: Option<String>)
    ensures
        match r {
            Some(v) => logo_value(attributes.deep_view(), 0) == Some(v@),
            None => logo_value(attributes.deep_view(), 0) is None,
        },
{
    let mut i: usize = 0;
    while i < attributes.len()
        invariant
            0 <= i <= attributes.len(),
            logo_value(attributes.deep_view(), i as int) == logo_value(attributes.deep_view(), 0),
        decreases attributes.len() - i,
    {
        proof {
            assert(attributes.deep_view()[i as int] == (attributes@[i as int].0@, attributes@[i as int].1@));
        }
        let name = attributes[i].0.as_str();
        if str_eq(name, "Square44x44Logo") || str_eq(name, "Square30x30Logo") || str_eq(
            name,
            "SmallLogo",
        ) {
            return Some(attributes[i].1.clone());
        }
        i += 1;
    }
    None
}

/// The logo that a manifest's events name for an executable.
pub fn find_logo(events: &Vec<XmlItem>, executable: &str) -> (r: Option<String>)
    ensures
        match r {
            Some(v) => spec_find_logo(item_views(events@), executable@) == Some(v@),
            None => spec_find_logo(item_views(events@), executable@) is None,
        },
{
    let mut path: Vec<String> = Vec::new();
    let mut matched = false;
    let mut i: usize = 0;
    proof {
        assert(path.deep_view() =~= Seq::<Seq<char>>::empty());
    }
    while i < events.len()
        invariant
            0 <= i <= events.len(),
            logo_from(item_views(events@), executable@, i as int, path.deep_view(), matched)
                == spec_find_logo(item_views(events@), executable@),
        decreases events.len() - i,
    {
        let ghost before = path.deep_view();
        proof {
            assert(item_views(events@)[i as int] == events@[i as int]@);
        }
        match &events[i] {
            XmlItem::Start { name, attributes } => {
                path.push(name.clone());
                proof {
                    assert(path.deep_view() =~= before.push(name@));
                }
                if path_is(&path, "Package", "Applications", "Application", None) {
                    matched = has_executable(attributes, executable);
                } else if matched && path_is(
                    &path,
                    "Package",
                    "Applications",
                    "Application",
                    Some("VisualElements"),
                ) {
                    match first_logo(attributes) {
                        Some(v) => {
                            return Some(v);
                        },
                        None => {},
                    }
                }
            },
            XmlItem::End => {
                if path.len() > 0 {
                    path.pop();
                    proof {
                        assert(path.deep_view() =~= before.drop_last());
                    }
                }
            },
            XmlItem::Other => {},
        }
        i += 1;
    }
    None
}

/// The logo that a packaged application's manifest names for an executable:
/// the manifest is parsed, and its events are searched.
pub fn get_appx_logo_path(manifest: &[u8], executable: &str) -> (r: Option<String>)
    ensures
        match r {
            Some(v) => spec_find_logo(xml_events(manifest@), executable@) == Some(v@),
            None => spec_find_logo(xml_events(manifest@), executable@) is None,
        },
{
    let events = read_events(manifest);
    find_logo(&events, executable)
}

/// The files that may hold a logo, best first: the logo's path without its
/// extension, a dot, a size, and the extension.
pub fn logo_candidates(prefix: &str, extension: &str) -> (r: Vec<String>)
    ensures
        r.deep_view() == seq![
            prefix@ + ".targetsize-256"@ + extension@,
            prefix@ + ".targetsize-128"@ + extension@,
            prefix@ + ".scale-200"@ + extension@,
            prefix@ + ".scale-100"@ + extension@,
        ],
{
    let mut r: Vec<String> = Vec::new();
    r.push(candidate(prefix, ".targetsize-256", extension));
    r.push(candidate(prefix, ".targetsize-128", extension));
    r.push(candidate(prefix, ".scale-200", extension));
    r.push(candidate(prefix, ".scale-100", extension));
    proof {
        assert(r.deep_view() =~= seq![
            prefix@ + ".targetsize-256"@ + extension@,
            prefix@ + ".targetsize-128"@ + extension@,
            prefix@ + ".scale-200"@ + extension@,
            prefix@ + ".scale-100"@ + extension@,
        ]);
    }
    r
}

fn candidate(prefix: &str, size: &str, extension: &str) -> (r: String)
    ensures
        r@ == prefix@ + size@ + extension@,
{
    let mut text = String::from_str(prefix);
    text.append(size);
    text.append(extension);
    text
}

/// Whether `needle` stands in `hay` at position `at`.
pub open spec fn occurs_at(hay: Seq<char>, needle: Seq<char>, at: int) -> bool {
    0 <= at && at + needle.len() <= hay.len() && hay.subrange(at, at + needle.len()) == needle
}

/// Whether `needle` stands somewhere in `hay`.
pub open spec fn contains_text(hay: Seq<char>, needle: Seq<char>) -> bool {
    exists|at: int| occurs_at(hay, needle, at)
}

fn matches_at(hay: &Vec<char>, needle: &Vec<char>, at: usize) -> (r: bool)
    requires
        at + needle.len() <= hay.len(),
    ensures
        r == occurs_at(hay@, needle@, at as int),
{
    let mut k: usize = 0;
    while k < needle.len()
        invariant
            0 <= k <= needle.len(),
            at + needle.len() <= hay.len(),
            forall|j: int| 0 <= j < k ==> hay@[at + j] == needle@[j],
        decreases needle.len() - k,
    {
        if hay[at + k] != needle[k] {
            proof {
                assert(hay@.subrange(at as int, at + needle.len())[k as int] == hay@[at + k]);
            }
            return false;
        }
        k += 1;
    }
    proof {
        assert(hay@.subrange(at as int, at + needle.len()) =~= needle@);
    }
    true
}

/// Whether `needle` stands somewhere in `hay`.
pub fn contains_chars(hay: &Vec<char>, needle: &Vec<char>) -> (r: bool)
    ensures
        r == contains_text(hay@, needle@),
{
    if needle.len() > hay.len() {
        return false;
    }
    let last = hay.len() - needle.len();
    let mut at: usize = 0;
    loop
        invariant
            0 <= at <= last,
            last == hay.len() - needle.len(),
            forall|j: int| 0 <= j < at ==> !occurs_at(hay@, needle@, j),
        decreases last - at,
    {
        if matches_at(hay, needle, at) {
            return true;
        }
        if at == last {
            return false;
        }
        at += 1;
    }
}

/// Whether a path begins with the folder of packaged applications.
pub fn is_packaged_app(path: &str) -> (r: bool)
    ensures
        r == occurs_at(path@, "C:\\Program Files\\WindowsApps"@, 0),
{
    let hay = chars_of(path);
    let needle = chars_of("C:\\Program Files\\WindowsApps");
    if needle.len() > hay.len() {
        return false;
    }
    matches_at(&hay, &needle, 0)
}

/// The position of the first override, from `from` on, whose key stands in
/// the path.
pub open spec fn override_position(entries: Seq<(Seq<char>, Seq<char>)>, path: Seq<char>, from: int) -> Option<int>
    decreases entries.len() - from,
{
    if from < 0 || from >= entries.len() {
        None
    } else if contains_text(path, entries[from].0) {
        Some(from)
    } else {
        override_position(entries, path, from + 1)
    }
}

/// The icon that is configured for an executable: the value of the first
/// override whose key stands in the lowercase of the executable's path.
pub fn find_override(override_icons: &IndexMap<String, String>, exe_path: &str) -> (r: Option<String>)
    ensures
        match r {
            Some(icon) => match override_position(
                text_entries(*override_icons),
                lowercase_of(exe_path@),
                0,
            ) {
                Some(i) => icon@ == text_entries(*override_icons)[i].1,
                None => false,
            },
            None => override_position(text_entries(*override_icons), lowercase_of(exe_path@), 0) is None,
        },
{
    let lowered = lowercase(exe_path);
    let hay = chars_of(lowered.as_str());
    let n = text_map_len(override_icons);
    let mut i: usize = 0;
    while i < n
        invariant
            0 <= i <= n,
            n == text_entries(*override_icons).len(),
            hay@ == lowercase_of(exe_path@),
            override_position(text_entries(*override_icons), hay@, i as int) == override_position(
                text_entries(*override_icons),
                hay@,
                0,
            ),
        decreases n - i,
    {
        match text_map_get_index(override_icons, i) {
            Some(entry) => {
                let key = chars_of(entry.0.as_str());
                if contains_chars(&hay, &key) {
                    return Some(entry.1.clone());
                }
            },
            None => {},
        }
        i += 1;
    }
    None
}

/// One place to take an icon from.
#[derive(Debug)]
pub enum IconSource {
    /// The configured icon file.
    Override(String),
    /// The logo that the application's manifest names.
    PackageLogo,
    /// The icon of the executable file.
    Executable,
    /// The icon that the window reports.
    Window,
    /// The system's icon for any application.
    Fallback,
}

/// The mathematical content of an `IconSource`.
pub enum IconSourceModel {
    Override(Seq<char>),
    PackageLogo,
    Executable,
    Window,
    Fallback,
}

impl View for IconSource {
    type V = IconSourceModel;

    open spec fn view(&self) -> IconSourceModel {
        match self {
            IconSource::Override(path) => IconSourceModel::Override(path@),
            IconSource::PackageLogo => IconSourceModel::PackageLogo,
            IconSource::Executable => IconSourceModel::Executable,
            IconSource::Window => IconSourceModel::Window,
            IconSource::Fallback => IconSourceModel::Fallback,
        }
    }
}

/// The views of the sources.
pub open spec fn source_views(sources: Seq<IconSource>) -> Seq<IconSourceModel> {
    Seq::new(sources.len(), |i: int| sources[i]@)
}

/// The places to take an application's icon from, in the order in which
/// they are tried: the configured override where there is one, the package
/// logo for a packaged application, the executable, the window, and at last
/// the system's icon.
pub open spec fn spec_icon_sources(entries: Seq<(Seq<char>, Seq<char>)>, exe_path: Seq<char>) -> Seq<
    IconSourceModel,
> {
    let first = match override_position(entries, lowercase_of(exe_path), 0) {
        Some(i) => seq![IconSourceModel::Override(entries[i].1)],
        None => Seq::empty(),
    };
    let second = if occurs_at(exe_path, "C:\\Program Files\\WindowsApps"@, 0) {
        seq![IconSourceModel::PackageLogo]
    } else {
        Seq::empty()
    };
    first + second + seq![
        IconSourceModel::Executable,
        IconSourceModel::Window,
        IconSourceModel::Fallback,
    ]
}

pub fn get_app_icon(override_icons: &IndexMap<String, String>, exe_path: &str) -> (r: Vec<IconSource>)
    ensures
        source_views(r@) == spec_icon_sources(text_entries(*override_icons), exe_path@),
{
    let mut sources: Vec<IconSource> = Vec::new();
    match find_override(override_icons, exe_path) {
        Some(icon) => {
            sources.push(IconSource::Override(icon));
        },
        None => {},
    }
    if is_packaged_app(exe_path) {
        sources.push(IconSource::PackageLogo);
    }
    sources.push(IconSource::Executable);
    sources.push(IconSource::Window);
    sources.push(IconSource::Fallback);
    proof {
        assert(source_views(sources@) =~= spec_icon_sources(text_entries(*override_icons), exe_path@));
    }
    sources
}

} // verus!
