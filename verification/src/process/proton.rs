//! The compatibility tool that runs the game on Linux.
use crate::dialog::{decode_lossy, lossy_text};
use crate::failure::is_about_proton;
use crate::paths::{equal, file_name, is_absolute, join, join_of, join_text, name_of, same_path};
use crate::process::libraries::{contains_path, has_path};
use crate::process::vdf::{
    compat_tool_name, dig, dig_value, entries_model, lemma_object_model, parse_vdf, parsed,
    selected_tool, text_in, Vdf, VdfValue,
};
use crate::text::{
    all_digits, begins, bytes_of, concat, copied, decimal, decode_bytes, digits_only, divide,
    is_sorted, join as join_letters, joined, letters, lowercase, number_of, occurs, occurs_at,
    parse_decimal, parse_number, part, pieces, same, sort, spells, split, split_once, text_of,
    views,
};
use vstd::prelude::*;

verus! {

/// An installed tool: its directory, and the name that Steam knows it by.
pub struct Tool {
    pub path: Vec<u8>,
    pub name: String,
}

/// The content of a [`Tool`].
#[verifier::ext_equal]
pub struct ToolModel {
    pub path: Seq<u8>,
    pub name: Seq<char>,
}

impl Tool {
    pub open spec fn model(self) -> ToolModel {
        ToolModel { path: self.path@, name: self.name@ }
    }

    pub fn copy(&self) -> (r: Tool)
        ensures
            r.model() == self.model(),
    {
        let path = copied(self.path.as_slice());
        assert(path@ =~= self.path@);
        Tool { path, name: self.name.clone() }
    }
}

pub open spec fn tool_models(tools: Seq<Tool>) -> Seq<ToolModel> {
    Seq::new(tools.len(), |i: int| tools[i].model())
}

/// The list without repetitions; what came first stays.
pub open spec fn distinct_paths(list: Seq<Seq<u8>>) -> Seq<Seq<u8>>
    decreases list.len(),
{
    if list.len() == 0 {
        list
    } else {
        let before = distinct_paths(list.drop_last());
        if has_path(before, list.last()) {
            before
        } else {
            before.push(list.last())
        }
    }
}

/// Where tools are kept in each library.
pub open spec fn library_tool_roots(libraries: Seq<Seq<u8>>) -> Seq<Seq<u8>>
    decreases libraries.len(),
{
    if libraries.len() == 0 {
        Seq::empty()
    } else {
        library_tool_roots(libraries.drop_last()).push(
            join_of(libraries.last(), vstd::utf8::encode_utf8("steamapps/common"@)),
        ).push(join_of(libraries.last(), vstd::utf8::encode_utf8("compatibilitytools.d"@)))
    }
}

/// Where tools are looked for: in the Steam directory, in every library, where the
/// system keeps them, and where the player says; no place twice.
pub open spec fn search_roots(
    steam_root: Seq<u8>,
    libraries: Seq<Seq<u8>>,
    extra: Option<Seq<u8>>,
) -> Seq<Seq<u8>> {
    distinct_paths(
        seq![join_of(steam_root, vstd::utf8::encode_utf8("compatibilitytools.d"@))]
            + library_tool_roots(libraries) + seq![
            vstd::utf8::encode_utf8("/usr/local/share/steam/compatibilitytools.d"@),
            vstd::utf8::encode_utf8("/usr/share/steam/compatibilitytools.d"@),
        ] + (match extra {
            Some(extra) => pieces(extra, 58),
            None => Seq::empty(),
        }),
    )
}

fn push_path(list: &mut Vec<Vec<u8>>, path: Vec<u8>)
    ensures
        views(final(list)@) == views(old(list)@).push(path@),
{
    let ghost before = views(list@);
    let ghost added = path@;
    list.push(path);
    assert(views(list@) =~= before.push(added));
}

fn without_repetition(list: Vec<Vec<u8>>) -> (r: Vec<Vec<u8>>)
    ensures
        views(r@) == distinct_paths(views(list@)),
{
    let ghost all = views(list@);
    let mut r: Vec<Vec<u8>> = Vec::new();
    let mut i: usize = 0;
    assert(views(r@) =~= Seq::empty());
    assert(all.take(0) =~= Seq::empty());
    while i < list.len()
        invariant
            i <= list@.len(),
            all == views(list@),
            views(r@) == distinct_paths(all.take(i as int)),
        decreases list@.len() - i,
    {
        assert(all.take(i + 1).drop_last() =~= all.take(i as int));
        if !contains_path(&r, list[i].as_slice()) {
            let copy = copied(list[i].as_slice());
            assert(copy@ =~= all[i as int]);
            push_path(&mut r, copy);
        }
        i = i + 1;
    }
    assert(all.take(i as int) =~= all);
    r
}

/// Where tools are looked for. `extra` is what the player says, with colons between
/// the places.
pub fn proton_search_roots(steam_root: &[u8], libraries: &Vec<Vec<u8>>, extra: &Option<Vec<u8>>) -> (r:
    Vec<Vec<u8>>)
    ensures
        views(r@) == search_roots(
            steam_root@,
            views(libraries@),
            match extra {
                Some(extra) => Some(extra@),
                None => None,
            },
        ),
{
    let mut roots: Vec<Vec<u8>> = Vec::new();
    let ghost all = views(libraries@);
    push_path(&mut roots, join_text(steam_root, "compatibilitytools.d"));
    let ghost first = seq![join_of(steam_root@, vstd::utf8::encode_utf8("compatibilitytools.d"@))];
    let mut i: usize = 0;
    assert(all.take(0) =~= Seq::empty());
    assert(views(roots@) =~= first + library_tool_roots(all.take(0)));
    while i < libraries.len()
        invariant
            i <= libraries@.len(),
            all == views(libraries@),
            views(roots@) == first + library_tool_roots(all.take(i as int)),
        decreases libraries@.len() - i,
    {
        assert(all.take(i + 1).drop_last() =~= all.take(i as int));
        push_path(&mut roots, join_text(libraries[i].as_slice(), "steamapps/common"));
        push_path(&mut roots, join_text(libraries[i].as_slice(), "compatibilitytools.d"));
        assert(views(roots@) =~= first + library_tool_roots(all.take(i + 1)));
        i = i + 1;
    }
    assert(all.take(i as int) =~= all);
    let ghost before = views(roots@);
    push_path(&mut roots, bytes_of("/usr/local/share/steam/compatibilitytools.d"));
    push_path(&mut roots, bytes_of("/usr/share/steam/compatibilitytools.d"));
    let ghost base = before + seq![
        vstd::utf8::encode_utf8("/usr/local/share/steam/compatibilitytools.d"@),
        vstd::utf8::encode_utf8("/usr/share/steam/compatibilitytools.d"@),
    ];
    assert(views(roots@) =~= base);
    if let Some(extra) = extra {
        let mut places = split(extra.as_slice(), 58);
        let ghost added = views(places@);
        let ghost prior = roots@;
        roots.append(&mut places);
        assert(views(roots@) =~= base + added);
    } else {
        assert(base + Seq::<Seq<u8>>::empty() =~= base);
    }
    without_repetition(roots)
}

/// `r` lists the directories that a place may hold tools in: itself, and the
/// directories in it by name.
pub open spec fn is_tool_directories(root: Seq<u8>, children: Seq<Seq<u8>>, r: Seq<Seq<u8>>) -> bool {
    exists|names: Seq<Seq<u8>>|
        {
            &&& #[trigger] is_sorted(names)
            &&& names.to_multiset() == children.to_multiset()
            &&& r == seq![root] + Seq::new(names.len(), |i: int| join_of(root, names[i]))
        }
}

/// The directories that a place may hold tools in; `children` are the names of the
/// directories in it.
pub fn tool_directories(root: &[u8], children: Vec<Vec<u8>>) -> (r: Vec<Vec<u8>>)
    ensures
        is_tool_directories(root@, views(children@), views(r@)),
{
    let names = sort(children);
    let ghost sorted = views(names@);
    let mut r: Vec<Vec<u8>> = Vec::new();
    let own = copied(root);
    assert(own@ =~= root@);
    push_path(&mut r, own);
    let mut i: usize = 0;
    assert(views(r@) =~= seq![root@] + Seq::new(0, |k: int| join_of(root@, sorted[k])));
    while i < names.len()
        invariant
            i <= names@.len(),
            sorted == views(names@),
            views(r@) == seq![root@] + Seq::new(i as nat, |k: int| join_of(root@, sorted[k])),
        decreases names@.len() - i,
    {
        push_path(&mut r, join(root, names[i].as_slice()));
        assert(views(r@) =~= seq![root@] + Seq::new(
            (i + 1) as nat,
            |k: int| join_of(root@, sorted[k]),
        ));
        i = i + 1;
    }
    r
}

/// The tools that a directory's own description names.
pub open spec fn declared_tools(directory: Seq<u8>, metadata: Option<Seq<char>>) -> Seq<ToolModel> {
    let document = match metadata {
        Some(text) => parsed(text),
        None => None,
    };
    match dig(dig(document, "compatibilitytools"@), "compat_tools"@) {
        Some(Vdf::Object(entries)) => Seq::new(
            entries.len(),
            |i: int|
                ToolModel {
                    path: join_of(
                        directory,
                        vstd::utf8::encode_utf8(
                            match text_in(entries[i].1.get("install_path"@)) {
                                Some(path) => path,
                                None => "."@,
                            },
                        ),
                    ),
                    name: entries[i].0,
                },
        ),
        _ => Seq::empty(),
    }
}

/// The name by which Steam knows one of Valve's own releases, from the name of its
/// directory.
pub open spec fn release_id(name: Seq<char>) -> Option<Seq<char>> {
    if name == "Proton - Experimental"@ {
        Some("proton_experimental"@)
    } else if name == "Proton Hotfix"@ {
        Some("proton_hotfix"@)
    } else if name == "Proton Next"@ {
        Some("proton_next"@)
    } else if "Proton "@.is_prefix_of(name) {
        match split_once(name.skip("Proton "@.len() as int), '.') {
            Some((major, minor)) => if major.len() > 0 && all_digits(major) && all_digits(minor)
                && decimal(major) <= u32::MAX {
                if decimal(major) >= 5 {
                    Some("proton_"@ + major)
                } else {
                    Some("proton_"@ + major + minor)
                }
            } else {
                None
            },
            None => None,
        }
    } else {
        None
    }
}

/// The names by which a tool directory itself is known.
pub open spec fn own_tools(directory: Seq<u8>) -> Seq<ToolModel> {
    match name_of(directory) {
        Some(bytes) => if vstd::utf8::valid_utf8(bytes) {
            let name = vstd::utf8::decode_utf8(bytes);
            match release_id(name) {
                Some(id) => seq![
                    ToolModel { path: directory, name },
                    ToolModel { path: directory, name: id },
                ],
                None => seq![ToolModel { path: directory, name }],
            }
        } else {
            Seq::empty()
        },
        None => Seq::empty(),
    }
}

/// The tools that a directory may hold.
pub open spec fn candidates_in(directory: Seq<u8>, metadata: Option<Seq<char>>) -> Seq<ToolModel> {
    declared_tools(directory, metadata) + own_tools(directory)
}

fn push_tool(tools: &mut Vec<Tool>, path: Vec<u8>, name: String)
    ensures
        tool_models(final(tools)@) == tool_models(old(tools)@).push(
            ToolModel { path: path@, name: name@ },
        ),
{
    let ghost before = tool_models(tools@);
    let ghost added = ToolModel { path: path@, name: name@ };
    tools.push(Tool { path, name });
    assert(tool_models(tools@) =~= before.push(added));
}

fn collect_declared(directory: &[u8], metadata: &Option<String>) -> (r: Vec<Tool>)
    ensures
        tool_models(r@) == declared_tools(
            directory@,
            match metadata {
                Some(text) => Some(text@),
                None => None,
            },
        ),
{
    let mut tools: Vec<Tool> = Vec::new();
    assert(tool_models(tools@) =~= Seq::empty());
    let document = match metadata {
        Some(text) => parse_vdf(text.as_str()),
        None => None,
    };
    let root = match &document {
        Some(value) => Some(value),
        None => None,
    };
    match dig_value(dig_value(root, "compatibilitytools"), "compat_tools") {
        Some(VdfValue::Object(entries)) => {
            proof {
                lemma_object_model(*entries);
            }
            let ghost all = entries_model(entries@);
            let ghost expected = Seq::new(
                all.len(),
                |i: int|
                    ToolModel {
                        path: join_of(
                            directory@,
                            vstd::utf8::encode_utf8(
                                match text_in(all[i].1.get("install_path"@)) {
                                    Some(path) => path,
                                    None => "."@,
                                },
                            ),
                        ),
                        name: all[i].0,
                    },
            );
            let mut i: usize = 0;
            assert(tool_models(tools@) =~= expected.take(0));
            while i < entries.len()
                invariant
                    i <= entries@.len(),
                    all == entries_model(entries@),
                    expected == Seq::new(
                        all.len(),
                        |k: int|
                            ToolModel {
                                path: join_of(
                                    directory@,
                                    vstd::utf8::encode_utf8(
                                        match text_in(all[k].1.get("install_path"@)) {
                                            Some(path) => path,
                                            None => "."@,
                                        },
                                    ),
                                ),
                                name: all[k].0,
                            },
                    ),
                    tool_models(tools@) == expected.take(i as int),
                decreases entries@.len() - i,
            {
                let place = match entries[i].1.get("install_path") {
                    Some(value) => match value.text() {
                        Some(path) => path,
                        None => ".",
                    },
                    None => ".",
                };
                push_tool(&mut tools, join_text(directory, place), entries[i].0.clone());
                assert(expected.take(i + 1) =~= expected.take(i as int).push(expected[i as int]));
                i = i + 1;
            }
            assert(expected.take(i as int) =~= expected);
            tools
        },
        _ => tools,
    }
}

/// The name by which Steam knows one of Valve's own releases.
pub fn id_of_release(name: &str) -> (r: Option<String>)
    ensures
        match r {
            Some(id) => release_id(name@) == Some(id@),
            None => release_id(name@) is None,
        },
{
    let all = letters(name);
    if spells(all.as_slice(), "Proton - Experimental") {
        return Some("proton_experimental".to_owned());
    }
    if spells(all.as_slice(), "Proton Hotfix") {
        return Some("proton_hotfix".to_owned());
    }
    if spells(all.as_slice(), "Proton Next") {
        return Some("proton_next".to_owned());
    }
    let prefix = letters("Proton ");
    if !begins(all.as_slice(), prefix.as_slice()) {
        return None;
    }
    let version = part(all.as_slice(), prefix.len(), all.len());
    assert(version@ =~= all@.skip(prefix@.len() as int));
    match divide(version.as_slice(), '.') {
        None => None,
        Some((major, minor)) => {
            if !digits_only(minor.as_slice()) {
                return None;
            }
            match parse_decimal(major.as_slice(), 0xffff_ffff) {
                None => None,
                Some(number) => {
                    let id = concat("proton_", text_of(major.as_slice()).as_str());
                    if number >= 5 {
                        Some(id)
                    } else {
                        Some(concat(id.as_str(), text_of(minor.as_slice()).as_str()))
                    }
                },
            }
        },
    }
}

/// The tools that a directory may hold; `metadata` is its description, if it has one.
/// A tool is there if its directory holds a launcher.
pub fn directory_tools(directory: &[u8], metadata: &Option<String>) -> (r: Vec<Tool>)
    ensures
        tool_models(r@) == candidates_in(
            directory@,
            match metadata {
                Some(text) => Some(text@),
                None => None,
            },
        ),
{
    let mut tools = collect_declared(directory, metadata);
    let ghost declared = tool_models(tools@);
    if let Some(bytes) = file_name(directory) {
        if let Some(name) = decode_bytes(bytes) {
            let id = id_of_release(name.as_str());
            push_tool(&mut tools, copied(directory), name);
            if let Some(id) = id {
                push_tool(&mut tools, copied(directory), id);
            }
        }
    }
    assert(tool_models(tools@) =~= declared + own_tools(directory@));
    tools
}

pub open spec fn same_tool(a: ToolModel, b: ToolModel) -> bool {
    same_path(a.path, b.path) && a.name == b.name
}

pub open spec fn has_tool(tools: Seq<ToolModel>, tool: ToolModel) -> bool {
    exists|i: int| 0 <= i < tools.len() && same_tool(#[trigger] tools[i], tool)
}

/// The candidates that have a launcher, none of them twice.
pub open spec fn installed(candidates: Seq<ToolModel>, has_launcher: Seq<bool>) -> Seq<ToolModel>
    decreases candidates.len(),
{
    if candidates.len() == 0 {
        Seq::empty()
    } else {
        let before = installed(candidates.drop_last(), has_launcher);
        let there = candidates.len() <= has_launcher.len() && has_launcher[candidates.len() - 1];
        if there && !has_tool(before, candidates.last()) {
            before.push(candidates.last())
        } else {
            before
        }
    }
}

fn contains_tool(tools: &Vec<Tool>, tool: &Tool) -> (r: bool)
    ensures
        r == has_tool(tool_models(tools@), tool.model()),
{
    let ghost all = tool_models(tools@);
    let name = letters(tool.name.as_str());
    let mut i: usize = 0;
    while i < tools.len()
        invariant
            i <= tools@.len(),
            all == tool_models(tools@),
            name@ == tool.name@,
            forall|j: int| 0 <= j < i ==> !same_tool(#[trigger] all[j], tool.model()),
        decreases tools@.len() - i,
    {
        if equal(tools[i].path.as_slice(), tool.path.as_slice()) && spells(
            name.as_slice(),
            tools[i].name.as_str(),
        ) {
            assert(same_tool(all[i as int], tool.model()));
            return true;
        }
        assert(!same_tool(all[i as int], tool.model()));
        i = i + 1;
    }
    false
}

/// The tools that are installed; `has_launcher` says of each candidate whether its
/// directory holds a launcher.
pub fn installed_proton_tools(candidates: &Vec<Tool>, has_launcher: &Vec<bool>) -> (r: Vec<Tool>)
    ensures
        tool_models(r@) == installed(tool_models(candidates@), has_launcher@),
{
    let ghost all = tool_models(candidates@);
    let mut tools: Vec<Tool> = Vec::new();
    let mut i: usize = 0;
    assert(tool_models(tools@) =~= Seq::empty());
    assert(all.take(0) =~= Seq::empty());
    while i < candidates.len()
        invariant
            i <= candidates@.len(),
            all == tool_models(candidates@),
            tool_models(tools@) == installed(all.take(i as int), has_launcher@),
        decreases candidates@.len() - i,
    {
        assert(all.take(i + 1).drop_last() =~= all.take(i as int));
        if i < has_launcher.len() && has_launcher[i] && !contains_tool(&tools, &candidates[i]) {
            push_tool(
                &mut tools,
                copied(candidates[i].path.as_slice()),
                candidates[i].name.clone(),
            );
        }
        i = i + 1;
    }
    assert(all.take(i as int) =~= all);
    tools
}

/// What `Debug` makes of a text: the text in quotes, with escapes.
pub uninterp spec fn debug_text(text: Seq<char>) -> Seq<char>;

/// The `Debug` form of a text. Which characters are escaped, and how, is left to the
/// standard library.
#[verifier::external_body]
fn debug_form(text: &str) -> (r: String)
    ensures
        r@ == debug_text(text@),
{
    format!("{text:?}")
}

/// Why no tool is chosen.
pub enum ProtonError {
    /// Steam's configuration cannot be read as such.
    Configuration { path: Vec<u8> },
    /// The tool that the player chose in Steam is not installed.
    NotInstalled { name: String, path: Vec<u8>, roots: Vec<Vec<u8>>, tools: Vec<String> },
    /// No tool is installed at all.
    Nothing { path: Vec<u8>, roots: Vec<Vec<u8>> },
    /// The directory that was asked for holds no launcher.
    Override { directory: Vec<u8> },
}

/// Paths, written one after the other.
pub open spec fn path_list(paths: Seq<Seq<u8>>) -> Seq<char> {
    joined(Seq::new(paths.len(), |i: int| lossy_text(paths[i])), ", "@)
}

pub open spec fn text_list(texts: Seq<String>) -> Seq<char> {
    joined(Seq::new(texts.len(), |i: int| texts[i]@), ", "@)
}

fn write_paths(paths: &Vec<Vec<u8>>) -> (r: String)
    ensures
        r@ == path_list(views(paths@)),
{
    let ghost all = Seq::new(views(paths@).len(), |i: int| lossy_text(views(paths@)[i]));
    let mut list: Vec<Vec<char>> = Vec::new();
    let mut i: usize = 0;
    assert(views(list@) =~= all.take(0));
    while i < paths.len()
        invariant
            i <= paths@.len(),
            all == Seq::new(views(paths@).len(), |i: int| lossy_text(views(paths@)[i])),
            views(list@) == all.take(i as int),
        decreases paths@.len() - i,
    {
        let ghost before = views(list@);
        let text = letters(decode_lossy(paths[i].as_slice()).as_str());
        let ghost added = text@;
        list.push(text);
        assert(views(list@) =~= before.push(added));
        assert(all.take(i + 1) =~= all.take(i as int).push(all[i as int]));
        i = i + 1;
    }
    assert(all.take(i as int) =~= all);
    text_of(join_letters(&list, letters(", ").as_slice()).as_slice())
}

fn write_texts(texts: &Vec<String>) -> (r: String)
    ensures
        r@ == text_list(texts@),
{
    let ghost all = Seq::new(texts@.len(), |i: int| texts@[i]@);
    let mut list: Vec<Vec<char>> = Vec::new();
    let mut i: usize = 0;
    assert(views(list@) =~= all.take(0));
    while i < texts.len()
        invariant
            i <= texts@.len(),
            all == Seq::new(texts@.len(), |i: int| texts@[i]@),
            views(list@) == all.take(i as int),
        decreases texts@.len() - i,
    {
        let ghost before = views(list@);
        let text = letters(texts[i].as_str());
        let ghost added = text@;
        list.push(text);
        assert(views(list@) =~= before.push(added));
        assert(all.take(i + 1) =~= all.take(i as int).push(all[i as int]));
        i = i + 1;
    }
    assert(all.take(i as int) =~= all);
    text_of(join_letters(&list, letters(", ").as_slice()).as_slice())
}

impl ProtonError {
    pub open spec fn text(self) -> Seq<char> {
        match self {
            ProtonError::Configuration { path } =>
                "Could not parse Steam Proton configuration at "@ + lossy_text(path@)
                    + ". Restart Steam and select Proton again in Divine Knockout > Properties > Compatibility."@,
            ProtonError::NotInstalled { name, path, roots, tools } =>
                "Steam selected compatibility tool "@ + debug_text(name@)
                    + ", but its Proton launcher was not found. Install that version in Steam Library > Tools, or select an installed Proton version in Divine Knockout > Properties > Compatibility. Steam configuration: "@
                    + lossy_text(path@) + ". Searched: "@ + path_list(views(roots@))
                    + ". Detected tools: "@ + text_list(tools@),
            ProtonError::Nothing { path, roots } =>
                "No installed Proton launcher was found. Install Proton in Steam Library > Tools, then select it in Divine Knockout > Properties > Compatibility and retry. Steam configuration: "@
                    + lossy_text(path@) + ". Searched: "@ + path_list(views(roots@)),
            ProtonError::Override { directory } => "Selected Proton tool has no launcher: "@
                + lossy_text(directory@)
                + ". Choose the directory containing the proton launcher."@,
        }
    }

    /// What the player reads.
    pub fn message(&self) -> (r: String)
        ensures
            r@ == self.text(),
    {
        match self {
            ProtonError::Configuration { path } => {
                let text = concat(
                    "Could not parse Steam Proton configuration at ",
                    decode_lossy(path.as_slice()).as_str(),
                );
                concat(
                    text.as_str(),
                    ". Restart Steam and select Proton again in Divine Knockout > Properties > Compatibility.",
                )
            },
            ProtonError::NotInstalled { name, path, roots, tools } => {
                let text = concat(
                    "Steam selected compatibility tool ",
                    debug_form(name.as_str()).as_str(),
                );
                let text = concat(
                    text.as_str(),
                    ", but its Proton launcher was not found. Install that version in Steam Library > Tools, or select an installed Proton version in Divine Knockout > Properties > Compatibility. Steam configuration: ",
                );
                let text = concat(text.as_str(), decode_lossy(path.as_slice()).as_str());
                let text = concat(text.as_str(), ". Searched: ");
                let text = concat(text.as_str(), write_paths(roots).as_str());
                let text = concat(text.as_str(), ". Detected tools: ");
                concat(text.as_str(), write_texts(tools).as_str())
            },
            ProtonError::Nothing { path, roots } => {
                let text = concat(
                    "No installed Proton launcher was found. Install Proton in Steam Library > Tools, then select it in Divine Knockout > Properties > Compatibility and retry. Steam configuration: ",
                    decode_lossy(path.as_slice()).as_str(),
                );
                let text = concat(text.as_str(), ". Searched: ");
                concat(text.as_str(), write_paths(roots).as_str())
            },
            ProtonError::Override { directory } => {
                let text = concat(
                    "Selected Proton tool has no launcher: ",
                    decode_lossy(directory.as_slice()).as_str(),
                );
                concat(text.as_str(), ". Choose the directory containing the proton launcher.")
            },
        }
    }
}

proof fn lemma_start_is_spoken_of(start: Seq<char>, rest: Seq<char>, needle: Seq<char>, i: int)
    requires
        occurs_at(lowercase(start), needle, i),
    ensures
        occurs(lowercase(start + rest), needle),
{
    let whole = lowercase(start + rest);
    assert(whole.subrange(i, i + needle.len()) =~= lowercase(start).subrange(i, i + needle.len()));
    assert(occurs_at(whole, needle, i));
}

/// Whatever keeps a tool from being chosen, the server and the player are told that it
/// is about Proton.
pub proof fn law_proton_errors_are_recognized(error: ProtonError)
    ensures
        is_about_proton(error.text()),
{
    reveal_strlit("proton");
    let proton = "proton"@;
    let text = error.text();
    match error {
        ProtonError::Configuration { path } => {
            reveal_strlit("Could not parse Steam Proton configuration at ");
            let start = "Could not parse Steam Proton configuration at "@;
            let rest = lossy_text(path@)
                + ". Restart Steam and select Proton again in Divine Knockout > Properties > Compatibility."@;
            assert(text =~= start + rest);
            assert(lowercase(start).subrange(22, 28) =~= proton);
            assert(occurs_at(lowercase(start), proton, 22));
            lemma_start_is_spoken_of(start, rest, proton, 22);
        },
        ProtonError::NotInstalled { name, path, roots, tools } => {
            reveal_strlit("compatibility tool");
            reveal_strlit("Steam selected compatibility tool ");
            let needle = "compatibility tool"@;
            let start = "Steam selected compatibility tool "@;
            let rest = debug_text(name@)
                + ", but its Proton launcher was not found. Install that version in Steam Library > Tools, or select an installed Proton version in Divine Knockout > Properties > Compatibility. Steam configuration: "@
                + lossy_text(path@) + ". Searched: "@ + path_list(views(roots@))
                + ". Detected tools: "@ + text_list(tools@);
            assert(text =~= start + rest);
            assert(lowercase(start).subrange(15, 33) =~= needle);
            assert(occurs_at(lowercase(start), needle, 15));
            lemma_start_is_spoken_of(start, rest, needle, 15);
        },
        ProtonError::Nothing { path, roots } => {
            reveal_strlit(
                "No installed Proton launcher was found. Install Proton in Steam Library > Tools, then select it in Divine Knockout > Properties > Compatibility and retry. Steam configuration: ",
            );
            let start =
                "No installed Proton launcher was found. Install Proton in Steam Library > Tools, then select it in Divine Knockout > Properties > Compatibility and retry. Steam configuration: "@;
            let rest = lossy_text(path@) + ". Searched: "@ + path_list(views(roots@));
            assert(text =~= start + rest);
            assert(lowercase(start).subrange(13, 19) =~= proton);
            assert(occurs_at(lowercase(start), proton, 13));
            lemma_start_is_spoken_of(start, rest, proton, 13);
        },
        ProtonError::Override { directory } => {
            reveal_strlit("Selected Proton tool has no launcher: ");
            let start = "Selected Proton tool has no launcher: "@;
            let rest = lossy_text(directory@)
                + ". Choose the directory containing the proton launcher."@;
            assert(text =~= start + rest);
            assert(lowercase(start).subrange(9, 15) =~= proton);
            assert(occurs_at(lowercase(start), proton, 9));
            lemma_start_is_spoken_of(start, rest, proton, 9);
        },
    }
}

/// The version of one of Valve's own releases, from the name of its directory.
pub open spec fn release_version(path: Seq<u8>) -> Option<(int, int)> {
    match name_of(path) {
        Some(bytes) => {
            let name = vstd::utf8::decode_utf8(bytes);
            if !vstd::utf8::valid_utf8(bytes) || !"Proton "@.is_prefix_of(name) {
                None
            } else {
                match split_once(name.skip("Proton "@.len() as int), '.') {
                    Some((major, minor)) => match (number_of(major), number_of(minor)) {
                        (Some(a), Some(b)) => Some((a, b)),
                        _ => None,
                    },
                    None => None,
                }
            }
        },
        None => None,
    }
}

/// A version is not newer than another one.
pub open spec fn no_newer(a: (int, int), b: (int, int)) -> bool {
    a.0 < b.0 || (a.0 == b.0 && a.1 <= b.1)
}

/// The tool is the newest release; the last one of several of the same version.
pub open spec fn is_newest(tools: Seq<ToolModel>, i: int) -> bool {
    &&& 0 <= i < tools.len()
    &&& release_version(tools[i].path) is Some
    &&& forall|j: int|
        0 <= j < tools.len() && release_version((#[trigger] tools[j]).path) is Some ==> {
            &&& no_newer(release_version(tools[j].path)->0, release_version(tools[i].path)->0)
            &&& j > i ==> release_version(tools[j].path) != release_version(tools[i].path)
        }
}

pub open spec fn has_release(tools: Seq<ToolModel>) -> bool {
    exists|i: int| 0 <= i < tools.len() && release_version((#[trigger] tools[i]).path) is Some
}

/// The first tool of a name.
pub open spec fn is_first_named(tools: Seq<ToolModel>, name: Seq<char>, i: int) -> bool {
    &&& 0 <= i < tools.len()
    &&& tools[i].name == name
    &&& forall|j: int| 0 <= j < i ==> (#[trigger] tools[j]).name != name
}

pub open spec fn has_named(tools: Seq<ToolModel>, name: Seq<char>) -> bool {
    exists|i: int| 0 <= i < tools.len() && (#[trigger] tools[i]).name == name
}

/// The tool that Steam is set to use for the game, or for all games.
pub open spec fn steam_choice(config: Seq<char>) -> Option<Seq<char>> {
    if selected_tool(config, "1294660"@) is Some {
        selected_tool(config, "1294660"@)
    } else {
        selected_tool(config, "0"@)
    }
}

/// The tool to use: the one that Steam is set to use; else the newest stable release,
/// the experimental one, or the first.
pub open spec fn is_choice(tools: Seq<ToolModel>, config: Seq<char>, i: int) -> bool {
    match steam_choice(config) {
        Some(name) => is_first_named(tools, name, i),
        None => if has_release(tools) {
            is_newest(tools, i)
        } else if has_named(tools, "proton_experimental"@) {
            is_first_named(tools, "proton_experimental"@, i)
        } else {
            i == 0 && tools.len() > 0
        },
    }
}

fn find_named(tools: &Vec<Tool>, name: &str) -> (r: Option<usize>)
    ensures
        match r {
            Some(i) => is_first_named(tool_models(tools@), name@, i as int),
            None => !has_named(tool_models(tools@), name@),
        },
{
    let ghost all = tool_models(tools@);
    let mut i: usize = 0;
    while i < tools.len()
        invariant
            i <= tools@.len(),
            all == tool_models(tools@),
            forall|j: int| 0 <= j < i ==> (#[trigger] all[j]).name != name@,
        decreases tools@.len() - i,
    {
        assert(all[i as int].name == tools@[i as int].name@);
        if spells(letters(tools[i].name.as_str()).as_slice(), name) {
            return Some(i);
        }
        i = i + 1;
    }
    None
}

fn version_of_release(path: &[u8]) -> (r: Option<(u32, u32)>)
    ensures
        match r {
            Some((a, b)) => release_version(path@) == Some((a as int, b as int)),
            None => release_version(path@) is None,
        },
{
    let bytes = match file_name(path) {
        Some(bytes) => bytes,
        None => {
            return None;
        },
    };
    let name = match decode_bytes(bytes) {
        Some(text) => letters(text.as_str()),
        None => {
            return None;
        },
    };
    let prefix = letters("Proton ");
    if !begins(name.as_slice(), prefix.as_slice()) {
        return None;
    }
    let version = part(name.as_slice(), prefix.len(), name.len());
    assert(version@ =~= name@.skip(prefix@.len() as int));
    match divide(version.as_slice(), '.') {
        None => None,
        Some((major, minor)) => match (
            parse_number(major.as_slice()),
            parse_number(minor.as_slice()),
        ) {
            (Some(a), Some(b)) => Some((a, b)),
            _ => None,
        },
    }
}

fn find_newest(tools: &Vec<Tool>) -> (r: Option<usize>)
    ensures
        match r {
            Some(i) => is_newest(tool_models(tools@), i as int),
            None => !has_release(tool_models(tools@)),
        },
{
    let ghost all = tool_models(tools@);
    let mut best: Option<(usize, u32, u32)> = None;
    let mut i: usize = 0;
    assert(all.take(0) =~= Seq::empty());
    while i < tools.len()
        invariant
            i <= tools@.len(),
            all == tool_models(tools@),
            match best {
                Some((k, a, b)) => is_newest(all.take(i as int), k as int) && release_version(
                    all[k as int].path,
                ) == Some((a as int, b as int)),
                None => !has_release(all.take(i as int)),
            },
        decreases tools@.len() - i,
    {
        let ghost head = all.take(i as int);
        let ghost next = all.take(i + 1);
        assert(next[i as int].path == tools@[i as int].path@);
        assert forall|j: int| 0 <= j < i implies #[trigger] next[j] == head[j] by {}
        match version_of_release(tools[i].path.as_slice()) {
            None => {
                proof {
                    if let Some((k, a, b)) = best {
                        assert(next[k as int] == head[k as int]);
                        assert(is_newest(next, k as int));
                    } else if has_release(next) {
                        let j = choose|j: int|
                            0 <= j < next.len() && release_version((#[trigger] next[j]).path) is Some;
                        assert(head[j] == next[j]);
                    }
                }
            },
            Some((a, b)) => {
                let better = match best {
                    None => true,
                    Some((_, x, y)) => x < a || (x == a && y <= b),
                };
                proof {
                    if let Some((k, x, y)) = best {
                        assert(next[k as int] == head[k as int]);
                        if better {
                            assert(is_newest(next, i as int));
                        } else {
                            assert(is_newest(next, k as int));
                        }
                    } else {
                        assert forall|j: int|
                            0 <= j < next.len() && release_version(
                                (#[trigger] next[j]).path,
                            ) is Some implies j == i by {
                            if j < i {
                                assert(head[j] == next[j]);
                            }
                        }
                        assert(is_newest(next, i as int));
                    }
                }
                if better {
                    best = Some((i, a, b));
                }
            },
        }
        i = i + 1;
    }
    assert(all.take(i as int) =~= all);
    match best {
        Some((k, _, _)) => Some(k),
        None => None,
    }
}

fn choose_in_steam(config: &str) -> (r: Option<String>)
    ensures
        match r {
            Some(name) => steam_choice(config@) == Some(name@),
            None => steam_choice(config@) is None,
        },
{
    match compat_tool_name(config, "1294660") {
        Some(name) => Some(name),
        None => compat_tool_name(config, "0"),
    }
}

fn names_of(tools: &Vec<Tool>) -> (r: Vec<String>)
    ensures
        r@.len() == tools@.len(),
        forall|i: int| 0 <= i < tools@.len() ==> (#[trigger] r@[i])@ == tools@[i].name@,
{
    let mut r: Vec<String> = Vec::new();
    let mut i: usize = 0;
    while i < tools.len()
        invariant
            i <= tools@.len(),
            r@.len() == i,
            forall|k: int| 0 <= k < i ==> (#[trigger] r@[k])@ == tools@[k].name@,
        decreases tools@.len() - i,
    {
        r.push(tools[i].name.clone());
        i = i + 1;
    }
    r
}

fn copy_paths(paths: &Vec<Vec<u8>>) -> (r: Vec<Vec<u8>>)
    ensures
        views(r@) == views(paths@),
{
    let ghost all = views(paths@);
    let mut r: Vec<Vec<u8>> = Vec::new();
    let mut i: usize = 0;
    assert(views(r@) =~= all.take(0));
    while i < paths.len()
        invariant
            i <= paths@.len(),
            all == views(paths@),
            views(r@) == all.take(i as int),
        decreases paths@.len() - i,
    {
        push_path(&mut r, copied(paths[i].as_slice()));
        assert(all.take(i + 1) =~= all.take(i as int).push(all[i as int]));
        i = i + 1;
    }
    assert(all.take(i as int) =~= all);
    r
}

/// The tool to use. `config` is Steam's configuration, which stands at `config_path`
/// and is empty when there is none; `tools` were found in `roots`.
pub fn resolve_proton_in_roots(
    config_path: &[u8],
    config: &str,
    roots: &Vec<Vec<u8>>,
    tools: &Vec<Tool>,
) -> (r: Result<Tool, ProtonError>)
    ensures
        match r {
            Ok(tool) => parsed(config@) is Some && exists|i: int| #[trigger]
                is_choice(tool_models(tools@), config@, i) && tool.model() == tool_models(
                    tools@,
                )[i],
            Err(ProtonError::Configuration { path }) => parsed(config@) is None && path@
                == config_path@,
            Err(ProtonError::NotInstalled { name, path, roots: searched, tools: detected }) => {
                &&& parsed(config@) is Some
                &&& steam_choice(config@) == Some(name@)
                &&& !has_named(tool_models(tools@), name@)
                &&& path@ == config_path@
                &&& views(searched@) == views(roots@)
                &&& detected@.len() == tools@.len()
                &&& forall|i: int|
                    0 <= i < tools@.len() ==> (#[trigger] detected@[i])@ == tools@[i].name@
            },
            Err(ProtonError::Nothing { path, roots: searched }) => {
                &&& parsed(config@) is Some
                &&& steam_choice(config@) is None
                &&& tools@.len() == 0
                &&& path@ == config_path@
                &&& views(searched@) == views(roots@)
            },
            Err(ProtonError::Override { .. }) => false,
        },
{
    if parse_vdf(config).is_none() {
        return Err(ProtonError::Configuration { path: copied(config_path) });
    }
    let ghost all = tool_models(tools@);
    match choose_in_steam(config) {
        Some(name) => match find_named(tools, name.as_str()) {
            Some(i) => {
                assert(is_choice(all, config@, i as int));
                Ok(tools[i].copy())
            },
            None => Err(
                ProtonError::NotInstalled {
                    name,
                    path: copied(config_path),
                    roots: copy_paths(roots),
                    tools: names_of(tools),
                },
            ),
        },
        None => {
            if let Some(i) = find_newest(tools) {
                proof {
                    assert(has_release(all)) by {
                        assert(release_version(all[i as int].path) is Some);
                    }
                    assert(is_choice(all, config@, i as int));
                }
                return Ok(tools[i].copy());
            }
            if let Some(i) = find_named(tools, "proton_experimental") {
                proof {
                    assert(has_named(all, "proton_experimental"@)) by {
                        assert(all[i as int].name == "proton_experimental"@);
                    }
                    assert(is_choice(all, config@, i as int));
                }
                return Ok(tools[i].copy());
            }
            if tools.len() > 0 {
                assert(is_choice(all, config@, 0));
                return Ok(tools[0].copy());
            }
            Err(
                ProtonError::Nothing { path: copied(config_path), roots: copy_paths(roots) },
            )
        },
    }
}

/// A choice that the player made in Steam is never silently replaced.
pub proof fn law_choice_in_steam_is_kept(tools: Seq<ToolModel>, config: Seq<char>, i: int)
    requires
        is_choice(tools, config, i),
        steam_choice(config) is Some,
    ensures
        Some(tools[i].name) == steam_choice(config),
{
}

/// The directory that was asked for, seen from where the launcher runs.
pub fn override_directory(directory: &[u8], current: &[u8]) -> (r: Vec<u8>)
    ensures
        r@ == join_of(current@, directory@),
{
    if is_absolute(directory) {
        return copied(directory);
    }
    join(current, directory)
}

/// The tool in the directory that was asked for.
pub fn override_tool(directory: &[u8], has_launcher: bool) -> (r: Result<Tool, ProtonError>)
    ensures
        match r {
            Ok(tool) => has_launcher && tool.path@ == directory@ && tool.name@ == match name_of(
                directory@,
            ) {
                Some(name) => if vstd::utf8::valid_utf8(name) {
                    vstd::utf8::decode_utf8(name)
                } else {
                    "custom-proton"@
                },
                None => "custom-proton"@,
            },
            Err(ProtonError::Override { directory: place }) => !has_launcher && place@
                == directory@,
            Err(_) => false,
        },
{
    if !has_launcher {
        return Err(ProtonError::Override { directory: copied(directory) });
    }
    let name = match file_name(directory) {
        Some(bytes) => match decode_bytes(bytes) {
            Some(name) => name,
            None => "custom-proton".to_owned(),
        },
        None => "custom-proton".to_owned(),
    };
    Ok(Tool { path: copied(directory), name })
}

} // verus!
