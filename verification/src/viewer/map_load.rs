//! What the map viewer loads: the map or the index of a world that it was
//! given, the instances of maps, and what it writes in its log about them.

use vstd::prelude::*;

use crate::folds::{lemma_push_contains, lemma_take_next};
use crate::names::{holds, views};
use crate::native_assets::{ext, model_of};
use crate::paths::{
    extension, file_name, file_stem, join_path, joined_path, leads_to, lemma_leads_to, name_of,
    parent, parent_of, plain_name, stem_of,
};
use crate::text::{
    all_white, concat, decimal, decimal_digits, drop_tail, drop_tails, ends_with, find_last,
    has_head, has_tail, last_index, lemma_blank, lemma_last_index_of, push_line, replace_char, replaced, same, slice_string, starts_with,
    strip_head, strip_tail, strip_tails, to_chars, trim, trimmed,
};
use crate::viewer::map::MapAssetDebugInfo;

verus! {

/// The first argument that is no option.
pub open spec fn first_path(args: Seq<Seq<char>>) -> Option<Seq<char>>
    decreases args.len(),
{
    if args.len() == 0 {
        None
    } else if has_head(args[0], "-"@) {
        first_path(args.drop_first())
    } else {
        Some(args[0])
    }
}

/// What to show: the first argument that is no option, else the index of the
/// world, where it exists, else the example map.
pub fn parse_input_target(args: &Vec<String>, assets: &str, index_exists: bool) -> (r: String)
    ensures
        r@ == match first_path(views(args@)) {
            Some(path) => path,
            None => if index_exists {
                joined_path(assets@, "maps/world.index.toml"@)
            } else {
                joined_path(assets@, "maps/example.map.toml"@)
            },
        },
{
    let ghost all = views(args@);
    let mut i: usize = 0;
    assert(all.skip(0) =~= all);
    while i < args.len()
        invariant
            i <= args.len(),
            all == views(args@),
            first_path(all) == first_path(all.skip(i as int)),
        decreases args.len() - i,
    {
        proof {
            assert(all.skip(i as int)[0] == args[i as int]@);
            assert(all.skip(i as int).drop_first() =~= all.skip(i + 1));
        }
        if !starts_with(args[i].as_str(), "-") {
            return args[i].as_str().to_string();
        }
        i = i + 1;
    }
    assert(all.skip(i as int) =~= Seq::<Seq<char>>::empty());
    if index_exists {
        join_path(assets, "maps/world.index.toml")
    } else {
        join_path(assets, "maps/example.map.toml")
    }
}

/// What a file of the models directory gives the log.
pub open spec fn scan_line(name: Seq<char>, files: Seq<Seq<char>>) -> Option<Seq<char>> {
    if ext(name) == "drawable"@ {
        Some("drawable registered: "@ + stem_of(name))
    } else if ext(name) == "adm"@ {
        Some("adm model registered: "@ + stem_of(name))
    } else if (ext(name) == "glb"@ || ext(name) == "gltf"@) && !files.contains(
        stem_of(name) + ".adm"@,
    ) {
        Some("gltf model registered: "@ + stem_of(name))
    } else {
        None
    }
}

pub open spec fn scan_lines(some: Seq<Seq<char>>, files: Seq<Seq<char>>) -> Seq<Seq<char>>
    decreases some.len(),
{
    if some.len() == 0 {
        Seq::empty()
    } else {
        let front = scan_lines(some.drop_last(), files);
        match scan_line(some.last(), files) {
            Some(line) => front.push(line),
            None => front,
        }
    }
}

fn scan_text(name: &str, files: &Vec<String>) -> (r: Option<String>)
    ensures
        match (r, scan_line(name@, views(files@))) {
            (Some(s), Some(t)) => s@ == t,
            (None, None) => true,
            _ => false,
        },
{
    let e = extension(name);
    let stem = file_stem(name);
    if same(e.as_str(), "drawable") {
        Some(concat("drawable registered: ", stem.as_str()))
    } else if same(e.as_str(), "adm") {
        Some(concat("adm model registered: ", stem.as_str()))
    } else if same(e.as_str(), "glb") || same(e.as_str(), "gltf") {
        let twin = concat(stem.as_str(), ".adm");
        if holds(files, twin.as_str()) {
            None
        } else {
            Some(concat("gltf model registered: ", stem.as_str()))
        }
    } else {
        None
    }
}

/// What the search for models writes in the log; `files` is what the
/// directory holds, where it can be read.
pub fn register_native_assets(dir: &str, files: &Option<Vec<String>>) -> (r: Vec<String>)
    ensures
        views(r@) == match *files {
            None => seq!["models scan failed: "@ + dir@],
            Some(v) => seq!["scanning models dir: "@ + dir@] + scan_lines(views(v@), views(v@)),
        },
{
    let mut lines: Vec<String> = Vec::new();
    match files {
        None => {
            push_line(&mut lines, concat("models scan failed: ", dir));
            assert(views(lines@) =~= seq!["models scan failed: "@ + dir@]);
        },
        Some(v) => {
            push_line(&mut lines, concat("scanning models dir: ", dir));
            let ghost head = seq!["scanning models dir: "@ + dir@];
            let ghost all = views(v@);
            let mut i: usize = 0;
            assert(all.take(0) =~= Seq::<Seq<char>>::empty());
            assert(views(lines@) =~= head + scan_lines(all.take(0), all));
            while i < v.len()
                invariant
                    i <= v.len(),
                    all == views(v@),
                    views(lines@) == head + scan_lines(all.take(i as int), all),
                decreases v.len() - i,
            {
                let ghost before = scan_lines(all.take(i as int), all);
                proof {
                    lemma_take_next(all, i as int);
                    assert(all.take(i + 1).last() == v[i as int]@);
                }
                match scan_text(v[i].as_str(), v) {
                    Some(line) => {
                        let ghost text = line@;
                        push_line(&mut lines, line);
                        assert(views(lines@) =~= head + before.push(text));
                    },
                    None => {},
                }
                i = i + 1;
            }
            assert(all.take(i as int) =~= all);
        },
    }
    lines
}

/// Every model that is registered is written in the log, and nothing else is
/// called a model there.
pub proof fn law_models_are_logged(name: Seq<char>, files: Seq<Seq<char>>)
    ensures
        match model_of(name, files) {
            Some(m) => scan_line(name, files) == Some(
                (if m.adm {
                    "adm model registered: "@
                } else {
                    "gltf model registered: "@
                }) + m.id,
            ),
            None => scan_line(name, files) is None || ext(name) == "drawable"@,
        },
{
    reveal_strlit("drawable");
    reveal_strlit("adm");
    reveal_strlit("glb");
    reveal_strlit("gltf");
}

/// What the input is, by its name.
#[derive(Clone, Debug)]
pub enum MapInput {
    WorldIndex,
    SingleMap,
    Unsupported(String),
}

pub open spec fn is_index(name: Seq<char>) -> bool {
    name == "world.index.toml"@ || name == "map.index.toml"@
}

/// Where the input is, what it is, and what is written in the log.
pub struct RequestedInput {
    pub path: String,
    pub kind: MapInput,
    pub lines: Vec<String>,
}

pub fn load_requested_input(assets: &str, input: &str) -> (r: RequestedInput)
    ensures
        r.path@ == joined_path(assets@, input@),
        match r.kind {
            MapInput::WorldIndex => ext(name_of(r.path@)) == "toml"@ && is_index(name_of(r.path@)),
            MapInput::SingleMap => ext(name_of(r.path@)) == "toml"@ && !is_index(name_of(r.path@)),
            MapInput::Unsupported(e) => ext(name_of(r.path@)) != "toml"@ && e@ == ext(
                name_of(r.path@),
            ),
        },
        views(r.lines@) == (if r.kind is Unsupported {
            seq![
                "input target resolved: "@ + r.path@,
                "unsupported input: "@ + r.path@ + " ("@ + ext(name_of(r.path@)) + ")"@,
            ]
        } else {
            seq!["input target resolved: "@ + r.path@]
        }),
{
    let path = join_path(assets, input);
    let mut lines: Vec<String> = Vec::new();
    push_line(&mut lines, concat("input target resolved: ", path.as_str()));
    assert(views(lines@) =~= seq!["input target resolved: "@ + path@]);
    let name = file_name(path.as_str());
    let e = extension(name.as_str());
    let kind = if same(e.as_str(), "toml") {
        if same(name.as_str(), "world.index.toml") || same(name.as_str(), "map.index.toml") {
            MapInput::WorldIndex
        } else {
            MapInput::SingleMap
        }
    } else {
        let mut line = concat("unsupported input: ", path.as_str());
        line.append(" (");
        line.append(e.as_str());
        line.append(")");
        let ghost text = line@;
        push_line(&mut lines, line);
        assert(views(lines@) =~= seq!["input target resolved: "@ + path@, text]);
        MapInput::Unsupported(e)
    };
    RequestedInput { path, kind, lines }
}

/// An entry of the index of a world.
#[derive(Clone, Debug)]
pub struct WorldTileDef {
    pub id: String,
    pub map: String,
}

pub open spec fn named(t: WorldTileDef) -> bool {
    trimmed(t.id@).len() > 0
}

pub open spec fn tile_id(t: WorldTileDef) -> Seq<char> {
    if named(t) {
        t.id@
    } else {
        t.map@
    }
}

pub open spec fn tile_reason(t: WorldTileDef) -> Seq<char> {
    if named(t) {
        "world index tile '"@ + t.id@ + "'"@
    } else {
        "world index entry -> "@ + t.map@
    }
}

/// A tile to load: its id, the file of its map, and why it is loaded.
pub struct TilePlan {
    pub id: String,
    pub map: String,
    pub reason: String,
    pub line: String,
}

/// The directory of the maps: the one that holds the index.
pub open spec fn maps_dir(index: Seq<char>) -> Seq<char> {
    match parent_of(index) {
        Some(dir) => dir,
        None => "."@,
    }
}

pub open spec fn is_plan(p: TilePlan, t: WorldTileDef, index: Seq<char>) -> bool {
    &&& p.id@ == tile_id(t)
    &&& p.map@ == joined_path(maps_dir(index), t.map@)
    &&& p.reason@ == tile_reason(t)
    &&& p.line@ == "tile scheduled: "@ + tile_reason(t) + " -> "@ + joined_path(
        maps_dir(index),
        t.map@,
    )
}

/// What was found of the index.
pub enum IndexRead {
    Unreadable,
    Invalid,
    Tiles(Vec<WorldTileDef>),
}

fn plan_tile(t: &WorldTileDef, index: &str) -> (r: TilePlan)
    ensures
        is_plan(r, *t, index@),
{
    let trimmed_id = trim(t.id.as_str());
    let unnamed = trimmed_id.as_str().is_empty();
    let id = if unnamed {
        t.map.as_str().to_string()
    } else {
        t.id.as_str().to_string()
    };
    let reason = if unnamed {
        concat("world index entry -> ", t.map.as_str())
    } else {
        let mut s = concat("world index tile '", t.id.as_str());
        s.append("'");
        s
    };
    let dir = match parent(index) {
        Some(d) => d,
        None => ".".to_string(),
    };
    let map = join_path(dir.as_str(), t.map.as_str());
    let mut line = concat("tile scheduled: ", reason.as_str());
    line.append(" -> ");
    line.append(map.as_str());
    TilePlan { id, map, reason, line }
}

/// The tiles of the index of a world, and the line of the log about the index.
pub fn load_world_index(path: &str, read: &IndexRead) -> (r: (String, Vec<TilePlan>))
    ensures
        r.0@ == match *read {
            IndexRead::Unreadable => "failed to read world index: "@ + path@,
            IndexRead::Invalid => "invalid world index TOML: "@ + path@,
            IndexRead::Tiles(v) => "world index loaded: "@ + path@ + " ("@ + decimal_digits(
                v@.len(),
            ) + " tile(s))"@,
        },
        match *read {
            IndexRead::Tiles(v) => r.1@.len() == v@.len() && forall|i: int|
                0 <= i < v@.len() ==> is_plan(#[trigger] r.1@[i], v@[i], path@),
            _ => r.1@.len() == 0,
        },
{
    let mut plans: Vec<TilePlan> = Vec::new();
    match read {
        IndexRead::Unreadable => (concat("failed to read world index: ", path), plans),
        IndexRead::Invalid => (concat("invalid world index TOML: ", path), plans),
        IndexRead::Tiles(v) => {
            let n = decimal(v.len() as u64);
            let mut line = concat("world index loaded: ", path);
            line.append(" (");
            line.append(n.as_str());
            line.append(" tile(s))");
            let mut i: usize = 0;
            while i < v.len()
                invariant
                    i <= v.len(),
                    plans@.len() == i,
                    forall|j: int| 0 <= j < i ==> is_plan(#[trigger] plans@[j], v@[j], path@),
                decreases v.len() - i,
            {
                plans.push(plan_tile(&v[i], path));
                i = i + 1;
            }
            (line, plans)
        },
    }
}

/// The tile that a reason names.
pub open spec fn tile_in(reason: Seq<char>) -> Option<Seq<char>> {
    if has_head(reason, "world index tile '"@) {
        let rest = reason.skip("world index tile '"@.len() as int);
        if has_tail(rest, "\""@) {
            Some(drop_tail(rest, "\""@))
        } else if has_tail(rest, "'"@) {
            Some(drop_tail(rest, "'"@))
        } else {
            None
        }
    } else {
        None
    }
}

pub open spec fn same_text(r: Option<String>, s: Option<Seq<char>>) -> bool {
    match (r, s) {
        (Some(x), Some(y)) => x@ == y,
        (None, None) => true,
        _ => false,
    }
}

pub fn reason_to_tile_id(reason: &str) -> (r: Option<String>)
    ensures
        same_text(r, tile_in(reason@)),
{
    match strip_head(reason, "world index tile '") {
        None => None,
        Some(rest) => match strip_tail(rest.as_str(), "\"") {
            Some(id) => Some(id),
            None => strip_tail(rest.as_str(), "'"),
        },
    }
}

/// The reason for which a tile is loaded names the tile where it has an id, and
/// no tile where it has none.
pub proof fn law_reason_names_tile(t: WorldTileDef)
    ensures
        tile_in(tile_reason(t)) == (if named(t) {
            Some(tile_id(t))
        } else {
            None
        }),
{
    reveal_strlit("'");
    reveal_strlit("\"");
    let head = "world index tile '"@;
    let reason = tile_reason(t);
    if named(t) {
        assert(reason =~= head + (t.id@ + "'"@));
        assert(reason.take(head.len() as int) =~= head);
        let rest = reason.skip(head.len() as int);
        assert(rest =~= t.id@ + "'"@);
        assert(rest.last() == '\'');
        assert(rest.skip(rest.len() - 1) =~= "'"@);
        assert(rest.skip(rest.len() - 1)[0] == '\'');
        assert("\""@[0] == '"');
        assert(drop_tail(rest, "'"@) =~= t.id@);
    } else {
        reveal_strlit("world index tile '");
        reveal_strlit("world index entry -> ");
        assert(reason[12] == 'e');
        assert(head[12] == 't');
        if has_head(reason, head) {
            assert(reason.take(head.len() as int)[12] == reason[12]);
        }
    }
}

/// The navigation mesh beside a map.
pub open spec fn sidecar_of(path: Seq<char>) -> Option<Seq<char>> {
    if has_tail(name_of(path), ".map.toml"@) {
        Some(
            joined_path(
                maps_dir(path),
                drop_tail(name_of(path), ".map.toml"@) + ".navmesh.toml"@,
            ),
        )
    } else {
        None
    }
}

pub fn navmesh_sidecar_path(map_path: &str) -> (r: Option<String>)
    ensures
        same_text(r, sidecar_of(map_path@)),
{
    let name = file_name(map_path);
    match strip_tail(name.as_str(), ".map.toml") {
        Some(stem) => {
            let dir = match parent(map_path) {
                Some(d) => d,
                None => ".".to_string(),
            };
            let beside = concat(stem.as_str(), ".navmesh.toml");
            Some(join_path(dir.as_str(), beside.as_str()))
        },
        None => None,
    }
}

/// The manifest beside a model, by the ending of the model's file.
pub open spec fn drawable_of(path: Seq<char>) -> Option<Seq<char>> {
    if has_tail(path, ".adm"@) {
        Some(drop_tails(path, ".adm"@) + ".drawable"@)
    } else if has_tail(path, ".glb"@) || has_tail(path, ".gltf"@) {
        Some(path.take(last_index(path, '.')) + ".drawable"@)
    } else {
        None
    }
}

proof fn lemma_last_index_bounds(s: Seq<char>, c: char)
    ensures
        -1 <= last_index(s, c) < s.len(),
    decreases s.len(),
{
    if s.len() > 0 && s.last() != c {
        lemma_last_index_bounds(s.drop_last(), c);
    }
}

proof fn lemma_last_index_found(s: Seq<char>, c: char, i: int)
    requires
        0 <= i < s.len(),
        s[i] == c,
    ensures
        i <= last_index(s, c),
    decreases s.len(),
{
    if s.last() != c {
        assert(i < s.len() - 1);
        lemma_last_index_found(s.drop_last(), c, i);
    }
}

fn drawable_path(path: &str) -> (r: Option<String>)
    ensures
        same_text(r, drawable_of(path@)),
{
    if ends_with(path, ".adm") {
        let mut r = strip_tails(path, ".adm");
        r.append(".drawable");
        Some(r)
    } else if ends_with(path, ".glb") || ends_with(path, ".gltf") {
        let x = to_chars(path);
        proof {
            reveal_strlit(".glb");
            reveal_strlit(".gltf");
            lemma_last_index_bounds(path@, '.');
            let i: int = if has_tail(path@, ".glb"@) {
                path@.len() - 4
            } else {
                path@.len() - 5
            };
            assert(path@[i] == path@.skip(i)[0]);
            lemma_last_index_found(path@, '.', i);
        }
        let end: usize = match find_last(&x, '.') {
            Some(i) => i,
            None => x.len(),
        };
        let mut r = slice_string(&x, 0, end);
        assert(r@ =~= path@.take(last_index(path@, '.')));
        r.append(".drawable");
        Some(r)
    } else {
        None
    }
}

/// An instance in a map: its model and its id, which may be empty.
#[derive(Clone, Debug)]
pub struct MapInstance {
    pub model: String,
    pub id: String,
}

/// A model and the file that it is registered with.
#[derive(Clone, Debug)]
pub struct ModelFile {
    pub model: String,
    pub path: String,
}

pub open spec fn file_of(files: Seq<ModelFile>, model: Seq<char>) -> Option<Seq<char>>
    decreases files.len(),
{
    if files.len() == 0 {
        None
    } else if files[0].model@ == model {
        Some(files[0].path@)
    } else {
        file_of(files.drop_first(), model)
    }
}

fn find_file(files: &Vec<ModelFile>, model: &str) -> (r: Option<String>)
    ensures
        same_text(r, file_of(files@, model@)),
{
    let mut i: usize = 0;
    assert(files@.skip(0) =~= files@);
    while i < files.len()
        invariant
            i <= files.len(),
            file_of(files@, model@) == file_of(files@.skip(i as int), model@),
        decreases files.len() - i,
    {
        assert(files@.skip(i as int).drop_first() =~= files@.skip(i + 1));
        if same(files[i].model.as_str(), model) {
            return Some(files[i].path.as_str().to_string());
        }
        i = i + 1;
    }
    None
}

pub open spec fn instance_id(i: MapInstance) -> Seq<char> {
    if i.id@.len() == 0 {
        i.model@
    } else {
        i.id@
    }
}

pub open spec fn instance_name(i: MapInstance) -> Seq<char> {
    if i.id@.len() == 0 {
        "map:"@ + i.model@
    } else {
        "map:"@ + i.model@ + ":"@ + i.id@
    }
}

/// The asset that an instance loads.
#[derive(Clone, Debug)]
pub enum InstanceAsset {
    Adm { path: String, info: MapAssetDebugInfo },
    Scene { path: String, info: MapAssetDebugInfo },
}

/// An instance to place: its name, its asset if it has one, and what is
/// written in the log.
#[derive(Clone, Debug)]
pub struct InstancePlan {
    pub name: String,
    pub asset: Option<InstanceAsset>,
    pub lines: Vec<String>,
}

/// Where an instance comes from.
#[derive(Clone, Debug)]
pub struct InstanceSource {
    pub map: String,
    pub reason: String,
}

pub open spec fn is_info(
    info: MapAssetDebugInfo,
    i: MapInstance,
    source: InstanceSource,
    asset: Seq<char>,
    drawable: Option<Seq<char>>,
) -> bool {
    &&& info.reason@ == source.reason@
    &&& info.source_map@ == source.map@
    &&& info.instance_id@ == instance_id(i)
    &&& same_text(info.tile_id, tile_in(source.reason@))
    &&& info.model@ == i.model@
    &&& info.asset_path@ == asset
    &&& same_text(info.drawable_path, drawable)
}

pub open spec fn missing_line(i: MapInstance, map: Seq<char>) -> Seq<char> {
    "instance '"@ + instance_id(i) + "' from '"@ + map + "' requested model '"@ + i.model@
        + "' but registry path was not found"@
}

pub open spec fn request_line(i: MapInstance, reason: Seq<char>, path: Seq<char>) -> Seq<char> {
    "instance '"@ + instance_id(i) + "' -> model '"@ + i.model@ + "' requested because "@ + reason
        + "; asset='"@ + path + "' drawable='"@ + (match drawable_of(path) {
        Some(d) => d,
        None => "<none>"@,
    }) + "'"@
}

pub open spec fn unmatched_line(i: MapInstance, map: Seq<char>, path: Seq<char>) -> Seq<char> {
    "instance '"@ + instance_id(i) + "' from '"@ + map + "' resolved model '"@ + i.model@
        + "' but no loadable asset kind matched path '"@ + path + "'"@
}

/// The plan of an instance: a model in the native format is loaded as it is,
/// one that is cached as glTF by its first scene, another not at all.
pub open spec fn is_instance_plan(
    p: InstancePlan,
    i: MapInstance,
    source: InstanceSource,
    files: Seq<ModelFile>,
    cached: Seq<Seq<char>>,
) -> bool {
    &&& p.name@ == instance_name(i)
    &&& match file_of(files, i.model@) {
        None => p.asset is None && views(p.lines@) == seq![missing_line(i, source.map@)],
        Some(path) => {
            let bevy = replaced(path, '\\', "/"@);
            let request = request_line(i, source.reason@, bevy);
            if has_tail(bevy, ".adm"@) {
                &&& views(p.lines@) == seq![request]
                &&& p.asset matches Some(InstanceAsset::Adm { path: loaded, info }) && loaded@
                    == bevy && is_info(info, i, source, path, drawable_of(bevy))
            } else if cached.contains(i.model@) {
                &&& views(p.lines@) == seq![request]
                &&& p.asset matches Some(InstanceAsset::Scene { path: loaded, info }) && loaded@
                    == bevy + "#Scene0"@ && is_info(
                    info,
                    i,
                    source,
                    bevy + "#Scene0"@,
                    drawable_of(bevy),
                )
            } else {
                &&& views(p.lines@) == seq![request, unmatched_line(i, source.map@, path)]
                &&& p.asset is None
            }
        },
    }
}

fn id_of(i: &MapInstance) -> (r: String)
    ensures
        r@ == instance_id(*i),
{
    if i.id.as_str().is_empty() {
        i.model.as_str().to_string()
    } else {
        i.id.as_str().to_string()
    }
}

fn info_of(
    i: &MapInstance,
    source: &InstanceSource,
    asset: &str,
    drawable: Option<String>,
) -> (r: MapAssetDebugInfo)
    ensures
        is_info(
            r,
            *i,
            *source,
            asset@,
            match drawable {
                Some(d) => Some(d@),
                None => None,
            },
        ),
{
    MapAssetDebugInfo {
        reason: source.reason.as_str().to_string(),
        source_map: source.map.as_str().to_string(),
        instance_id: id_of(i),
        tile_id: reason_to_tile_id(source.reason.as_str()),
        model: i.model.as_str().to_string(),
        asset_path: asset.to_string(),
        drawable_path: drawable,
    }
}

fn missing_text(i: &MapInstance, map: &str) -> (r: String)
    ensures
        r@ == missing_line(*i, map@),
{
    let id = id_of(i);
    let mut r = concat("instance '", id.as_str());
    r.append("' from '");
    r.append(map);
    r.append("' requested model '");
    r.append(i.model.as_str());
    r.append("' but registry path was not found");
    r
}

fn request_text(i: &MapInstance, reason: &str, path: &str, drawable: &Option<String>) -> (r: String)
    requires
        same_text(*drawable, drawable_of(path@)),
    ensures
        r@ == request_line(*i, reason@, path@),
{
    let id = id_of(i);
    let mut r = concat("instance '", id.as_str());
    r.append("' -> model '");
    r.append(i.model.as_str());
    r.append("' requested because ");
    r.append(reason);
    r.append("; asset='");
    r.append(path);
    r.append("' drawable='");
    match drawable {
        Some(d) => r.append(d.as_str()),
        None => r.append("<none>"),
    }
    r.append("'");
    r
}

fn unmatched_text(i: &MapInstance, map: &str, path: &str) -> (r: String)
    ensures
        r@ == unmatched_line(*i, map@, path@),
{
    let id = id_of(i);
    let mut r = concat("instance '", id.as_str());
    r.append("' from '");
    r.append(map);
    r.append("' resolved model '");
    r.append(i.model.as_str());
    r.append("' but no loadable asset kind matched path '");
    r.append(path);
    r.append("'");
    r
}

pub fn spawn_map_instance(
    instance: &MapInstance,
    source: &InstanceSource,
    files: &Vec<ModelFile>,
    cached: &Vec<String>,
) -> (r: InstancePlan)
    ensures
        is_instance_plan(r, *instance, *source, files@, views(cached@)),
{
    let mut name = concat("map:", instance.model.as_str());
    if !instance.id.as_str().is_empty() {
        name.append(":");
        name.append(instance.id.as_str());
    }
    let mut lines: Vec<String> = Vec::new();
    let path = match find_file(files, instance.model.as_str()) {
        None => {
            push_line(&mut lines, missing_text(instance, source.map.as_str()));
            assert(views(lines@) =~= seq![missing_line(*instance, source.map@)]);
            return InstancePlan { name, asset: None, lines };
        },
        Some(p) => p,
    };
    let bevy = replace_char(path.as_str(), '\\', "/");
    let drawable = drawable_path(bevy.as_str());
    let ghost request = request_line(*instance, source.reason@, bevy@);
    push_line(
        &mut lines,
        request_text(instance, source.reason.as_str(), bevy.as_str(), &drawable),
    );
    assert(views(lines@) =~= seq![request]);
    if ends_with(bevy.as_str(), ".adm") {
        let info = info_of(instance, source, path.as_str(), drawable);
        return InstancePlan { name, asset: Some(InstanceAsset::Adm { path: bevy, info }), lines };
    }
    if holds(cached, instance.model.as_str()) {
        let scene = concat(bevy.as_str(), "#Scene0");
        let info = info_of(instance, source, scene.as_str(), drawable);
        return InstancePlan { name, asset: Some(InstanceAsset::Scene { path: scene, info }), lines };
    }
    let ghost unmatched = unmatched_line(*instance, source.map@, path@);
    push_line(&mut lines, unmatched_text(instance, source.map.as_str(), path.as_str()));
    assert(views(lines@) =~= seq![request, unmatched]);
    InstancePlan { name, asset: None, lines }
}

/// What was found of a map.
pub enum MapRead {
    Unreadable,
    Invalid,
    Instances(Vec<MapInstance>),
}

/// What was found of the navigation mesh beside a map.
#[derive(Clone, Debug)]
pub enum SidecarRead {
    Unreadable,
    Failed(String),
    Loaded,
}

/// The line of the log about the navigation mesh beside a map.
pub open spec fn sidecar_line(path: Seq<char>, read: SidecarRead) -> Seq<char> {
    match sidecar_of(path) {
        None => "no navmesh sidecar for map: "@ + path,
        Some(nav) => match read {
            SidecarRead::Unreadable => "navmesh missing or unreadable: "@ + nav,
            SidecarRead::Failed(err) => "navmesh load failed: "@ + nav + " ("@ + err@ + ")"@,
            SidecarRead::Loaded => "navmesh loaded: "@ + nav,
        },
    }
}

/// What is written about the navigation mesh beside a map; `read` is what was
/// found where the map has one.
pub fn load_sidecar(path: &str, read: &SidecarRead) -> (r: String)
    ensures
        r@ == sidecar_line(path@, *read),
{
    match navmesh_sidecar_path(path) {
        None => concat("no navmesh sidecar for map: ", path),
        Some(nav) => match read {
            SidecarRead::Unreadable => concat("navmesh missing or unreadable: ", nav.as_str()),
            SidecarRead::Failed(err) => {
                let mut r = concat("navmesh load failed: ", nav.as_str());
                r.append(" (");
                r.append(err.as_str());
                r.append(")");
                r
            },
            SidecarRead::Loaded => concat("navmesh loaded: ", nav.as_str()),
        },
    }
}

/// The lines of plans, in their order.
pub open spec fn plan_lines(plans: Seq<InstancePlan>) -> Seq<Seq<char>>
    decreases plans.len(),
{
    if plans.len() == 0 {
        Seq::empty()
    } else {
        plan_lines(plans.drop_last()) + views(plans.last().lines@)
    }
}

pub open spec fn reason_or_direct(reason: Option<String>, path: Seq<char>) -> Seq<char> {
    match reason {
        Some(s) => s@,
        None => "direct map load '"@ + path + "'"@,
    }
}

/// The instances of a map, and what is written in the log.
pub struct MapLoad {
    pub plans: Vec<InstancePlan>,
    pub lines: Vec<String>,
}

fn push_lines(lines: &mut Vec<String>, more: &Vec<String>)
    ensures
        views(final(lines)@) == views(old(lines)@) + views(more@),
{
    let ghost before = views(lines@);
    let ghost all = views(more@);
    let mut i: usize = 0;
    assert(before + all.take(0) =~= before);
    while i < more.len()
        invariant
            i <= more.len(),
            all == views(more@),
            views(lines@) == before + all.take(i as int),
        decreases more.len() - i,
    {
        assert(all.take(i + 1) =~= all.take(i as int).push(more[i as int]@));
        push_line(lines, more[i].as_str().to_string());
        assert(views(lines@) =~= before + all.take(i + 1));
        i = i + 1;
    }
    assert(all.take(i as int) =~= all);
}

pub fn load_single_map(
    path: &str,
    read: &MapRead,
    reason: &Option<String>,
    files: &Vec<ModelFile>,
    cached: &Vec<String>,
    sidecar: &SidecarRead,
) -> (r: MapLoad)
    ensures
        match *read {
            MapRead::Unreadable => r.plans@.len() == 0 && views(r.lines@)
                == seq!["failed to read map: "@ + path@],
            MapRead::Invalid => r.plans@.len() == 0 && views(r.lines@)
                == seq!["invalid map TOML: "@ + path@],
            MapRead::Instances(v) => {
                &&& r.plans@.len() == v@.len()
                &&& forall|i: int, source: InstanceSource|
                    0 <= i < v@.len() && source.map@ == path@ && source.reason@
                        == reason_or_direct(*reason, path@) ==> #[trigger] is_instance_plan(
                        r.plans@[i],
                        v@[i],
                        source,
                        files@,
                        views(cached@),
                    )
                &&& views(r.lines@) == (seq![
                    "map loaded: "@ + path@ + " ("@ + decimal_digits(v@.len())
                        + " instance(s))"@,
                ] + plan_lines(r.plans@)).push(sidecar_line(path@, *sidecar))
            },
        },
{
    let mut plans: Vec<InstancePlan> = Vec::new();
    let mut lines: Vec<String> = Vec::new();
    match read {
        MapRead::Unreadable => {
            push_line(&mut lines, concat("failed to read map: ", path));
            assert(views(lines@) =~= seq!["failed to read map: "@ + path@]);
        },
        MapRead::Invalid => {
            push_line(&mut lines, concat("invalid map TOML: ", path));
            assert(views(lines@) =~= seq!["invalid map TOML: "@ + path@]);
        },
        MapRead::Instances(v) => {
            let why = match reason {
                Some(s) => s.as_str().to_string(),
                None => {
                    let mut s = concat("direct map load '", path);
                    s.append("'");
                    s
                },
            };
            let source = InstanceSource { map: path.to_string(), reason: why };
            let n = decimal(v.len() as u64);
            let mut line = concat("map loaded: ", path);
            line.append(" (");
            line.append(n.as_str());
            line.append(" instance(s))");
            let ghost head = seq![line@];
            push_line(&mut lines, line);
            assert(views(lines@) =~= head + plan_lines(plans@));
            let mut i: usize = 0;
            while i < v.len()
                invariant
                    i <= v.len(),
                    plans@.len() == i,
                    views(lines@) == head + plan_lines(plans@),
                    forall|j: int|
                        0 <= j < i ==> is_instance_plan(
                            #[trigger] plans@[j],
                            v@[j],
                            source,
                            files@,
                            views(cached@),
                        ),
                decreases v.len() - i,
            {
                let plan = spawn_map_instance(&v[i], &source, files, cached);
                let ghost earlier = plans@;
                let ghost before = plan_lines(earlier);
                let ghost added = views(plan.lines@);
                push_lines(&mut lines, &plan.lines);
                assert(views(lines@) =~= head + (before + added));
                plans.push(plan);
                assert(plans@.drop_last() =~= earlier);
                i = i + 1;
            }
            push_line(&mut lines, load_sidecar(path, sidecar));
        },
    }
    MapLoad { plans, lines }
}

proof fn lemma_first_path(args: Seq<Seq<char>>, i: int)
    requires
        0 <= i <= args.len(),
        i < args.len() ==> !has_head(args[i], "-"@),
        forall|j: int| 0 <= j < i ==> has_head(#[trigger] args[j], "-"@),
    ensures
        i < args.len() ==> first_path(args) == Some(args[i]),
        i == args.len() ==> first_path(args) is None,
    decreases i,
{
    if i > 0 {
        assert(has_head(args[0], "-"@));
        let rest = args.drop_first();
        assert forall|j: int| 0 <= j < i - 1 implies has_head(#[trigger] rest[j], "-"@) by {
            assert(rest[j] == args[j + 1]);
        }
        lemma_first_path(rest, i - 1);
    }
}

proof fn lemma_dash(s: Seq<char>)
    ensures
        has_head(s, "-"@) <==> s.len() > 0 && s[0] == '-',
{
    reveal_strlit("-");
    if s.len() > 0 && s[0] == '-' {
        assert(s.take(1) =~= "-"@);
    } else if has_head(s, "-"@) {
        assert(s.take(1)[0] == "-"@[0]);
    }
}

/// What is shown is the first argument that does not begin with a dash, argument
/// `i`; without one it is the index of the world where there is one, and else the
/// example map.
pub proof fn law_input_target(
    args: &Vec<String>,
    assets: &str,
    index_exists: bool,
    r: String,
    i: int,
    index: &str,
    example: &str,
    world: String,
    map: String,
)
    requires
        call_ensures(parse_input_target, (args, assets, index_exists), r),
        index@ == "maps/world.index.toml"@ && example@ == "maps/example.map.toml"@,
        call_ensures(join_path, (assets, index), world),
        call_ensures(join_path, (assets, example), map),
        0 <= i <= args@.len(),
        i < args@.len() ==> args@[i]@.len() == 0 || args@[i]@[0] != '-',
        forall|j: int|
            0 <= j < i ==> (#[trigger] args@[j])@.len() > 0 && args@[j]@[0] == '-',
    ensures
        i < args@.len() ==> r@ == args@[i]@,
        i == args@.len() && index_exists ==> r@ == world@,
        i == args@.len() && !index_exists ==> r@ == map@,
{
    let v = views(args@);
    assert(v.len() == args@.len());
    assert forall|j: int| 0 <= j < i implies has_head(#[trigger] v[j], "-"@) by {
        assert(v[j] == args@[j]@);
        lemma_dash(v[j]);
    }
    if i < args@.len() {
        assert(v[i] == args@[i]@);
        lemma_dash(v[i]);
    }
    lemma_first_path(v, i);
}

/// `line` is what the log says of the file `name` of a directory: a manifest, a
/// model in the native format, or another model that has no such file beside it.
pub open spec fn tells_file(line: Seq<char>, name: Seq<char>, files: Seq<Seq<char>>) -> bool {
    ||| ext(name) == "drawable"@ && line == "drawable registered: "@ + stem_of(name)
    ||| ext(name) == "adm"@ && line == "adm model registered: "@ + stem_of(name)
    ||| (ext(name) == "glb"@ || ext(name) == "gltf"@) && !files.contains(stem_of(name) + ".adm"@)
        && line == "gltf model registered: "@ + stem_of(name)
}

proof fn lemma_scanned(some: Seq<Seq<char>>, files: Seq<Seq<char>>, line: Seq<char>)
    ensures
        scan_lines(some, files).contains(line) <==> exists|k: int|
            0 <= k < some.len() && tells_file(line, #[trigger] some[k], files),
    decreases some.len(),
{
    reveal_strlit("drawable");
    reveal_strlit("adm");
    reveal_strlit("glb");
    reveal_strlit("gltf");
    assert("drawable"@.len() == 8 && "adm"@.len() == 3 && "glb"@.len() == 3 && "gltf"@.len() == 4);
    assert("adm"@[0] == 'a' && "glb"@[0] == 'g');
    if some.len() > 0 {
        let front = some.drop_last();
        let last = some.last();
        lemma_scanned(front, files, line);
        let told = scan_line(last, files);
        if told is Some {
            lemma_push_contains(scan_lines(front, files), told->0, line);
        }
        assert(tells_file(line, last, files) <==> told == Some(line));
        if exists|k: int| 0 <= k < front.len() && tells_file(line, #[trigger] front[k], files) {
            let k = choose|k: int|
                0 <= k < front.len() && tells_file(line, #[trigger] front[k], files);
            assert(some[k] == front[k]);
        }
        if tells_file(line, last, files) {
            assert(some[some.len() - 1] == last);
        }
        if exists|k: int| 0 <= k < some.len() && tells_file(line, #[trigger] some[k], files) {
            let k = choose|k: int|
                0 <= k < some.len() && tells_file(line, #[trigger] some[k], files);
            if k < front.len() {
                assert(front[k] == some[k]);
            }
        }
    }
}

/// The log of the search for models: where it searches, and then what it says of
/// each file, of no other one, and at most a line for each.
pub proof fn law_models_scanned(
    dir: &str,
    files: &Option<Vec<String>>,
    r: Vec<String>,
    line: Seq<char>,
)
    requires
        call_ensures(register_native_assets, (dir, files), r),
    ensures
        files is None ==> r@.len() == 1 && r@[0]@ == "models scan failed: "@ + dir@,
        files matches Some(v) ==> r@.len() > 0 && r@.len() <= v@.len() + 1 && r@[0]@
            == "scanning models dir: "@ + dir@,
        files matches Some(v) ==> (views(r@).skip(1).contains(line) <==> exists|k: int|
            0 <= k < v@.len() && tells_file(line, (#[trigger] v@[k])@, views(v@))),
{
    let lines = views(r@);
    assert(lines.len() == r@.len());
    if r@.len() > 0 {
        assert(lines[0] == r@[0]@);
    }
    if files is Some {
        let v = files->0@;
        let names = views(v);
        lemma_scanned(names, names, line);
        lemma_scan_count(names, names);
        assert(lines.skip(1) =~= scan_lines(names, names));
        if exists|k: int| 0 <= k < names.len() && tells_file(line, #[trigger] names[k], names) {
            let k = choose|k: int|
                0 <= k < names.len() && tells_file(line, #[trigger] names[k], names);
            assert(tells_file(line, v[k]@, views(v)));
        }
        if exists|k: int| 0 <= k < v.len() && tells_file(line, (#[trigger] v[k])@, views(v)) {
            let k = choose|k: int| 0 <= k < v.len() && tells_file(line, (#[trigger] v[k])@, views(v));
            assert(names[k] == v[k]@);
        }
    }
}

proof fn lemma_scan_count(some: Seq<Seq<char>>, files: Seq<Seq<char>>)
    ensures
        scan_lines(some, files).len() <= some.len(),
    decreases some.len(),
{
    if some.len() > 0 {
        lemma_scan_count(some.drop_last(), files);
    }
}

/// The input by the name of its file: only `toml` files are read, two names stand
/// for the index of a world, and any other one for a map.
pub proof fn law_requested_input(
    assets: &str,
    input: &str,
    r: RequestedInput,
    path: String,
    name: &str,
    end: String,
)
    requires
        call_ensures(load_requested_input, (assets, input), r),
        call_ensures(join_path, (assets, input), path),
        plain_name(name@),
        leads_to(path@, name@),
        call_ensures(extension, (name,), end),
    ensures
        r.path@ == path@,
        r.kind is WorldIndex <==> end@ == "toml"@ && (name@ == "world.index.toml"@ || name@
            == "map.index.toml"@),
        r.kind is SingleMap <==> end@ == "toml"@ && name@ != "world.index.toml"@ && name@
            != "map.index.toml"@,
        r.kind matches MapInput::Unsupported(e) ==> e@ == end@ && end@ != "toml"@,
        r.lines@[0]@ == "input target resolved: "@ + path@,
        end@ == "toml"@ ==> r.lines@.len() == 1,
        end@ != "toml"@ ==> r.lines@.len() == 2 && r.lines@[1]@ == "unsupported input: "@ + path@
            + " ("@ + end@ + ")"@,
{
    reveal_strlit("toml");
    assert("toml"@.len() == 4);
    lemma_leads_to(path@, name@);
    assert(name_of(path@) == name@);
    let lines = views(r.lines@);
    assert(lines.len() == r.lines@.len());
    assert(lines[0] == r.lines@[0]@);
    if lines.len() > 1 {
        assert(lines[1] == r.lines@[1]@);
    }
}

/// The tiles of a world: each entry of the index is a tile, whose map stands
/// beside the index and which goes by its id, or by its map where the id is blank.
pub proof fn law_world_tiles(
    path: &str,
    read: &IndexRead,
    r: (String, Vec<TilePlan>),
    up: Option<String>,
    i: int,
)
    requires
        call_ensures(load_world_index, (path, read), r),
        call_ensures(parent, (path,), up),
        read matches IndexRead::Tiles(v) ==> 0 <= i < v@.len(),
    ensures
        read is Unreadable ==> r.0@ == "failed to read world index: "@ + path@ && r.1@.len() == 0,
        read is Invalid ==> r.0@ == "invalid world index TOML: "@ + path@ && r.1@.len() == 0,
        read matches IndexRead::Tiles(v) ==> r.1@.len() == v@.len() && r.0@
            == "world index loaded: "@ + path@ + " ("@ + decimal_digits(v@.len()) + " tile(s))"@,
        read matches IndexRead::Tiles(v) ==> r.1@[i].map@ == joined_path(
            if up is Some {
                up->0@
            } else {
                "."@
            },
            v@[i].map@,
        ) && r.1@[i].line@ == "tile scheduled: "@ + r.1@[i].reason@ + " -> "@ + r.1@[i].map@,
        read matches IndexRead::Tiles(v) ==> (!all_white(v@[i].id@) ==> r.1@[i].id@ == v@[i].id@
            && r.1@[i].reason@ == "world index tile '"@ + v@[i].id@ + "'"@),
        read matches IndexRead::Tiles(v) ==> (all_white(v@[i].id@) ==> r.1@[i].id@ == v@[i].map@
            && r.1@[i].reason@ == "world index entry -> "@ + v@[i].map@),
{
    if let IndexRead::Tiles(v) = *read {
        lemma_blank(v@[i].id@);
        assert(is_plan(r.1@[i], v@[i], path@));
    }
}

/// The tile that a reason names is read back from it, in either kind of quotes;
/// any other reason names none.
pub proof fn law_tile_read_back(reason: &str, id: Seq<char>, rest: Seq<char>, r: Option<String>)
    requires
        call_ensures(reason_to_tile_id, (reason,), r),
    ensures
        reason@ == "world index tile '"@ + id + "'"@ ==> r is Some && r->0@ == id,
        reason@ == "world index tile '"@ + id + "\""@ ==> r is Some && r->0@ == id,
        reason@ == "world index entry -> "@ + rest ==> r is None,
        reason@ == "direct map load '"@ + rest ==> r is None,
        r is Some ==> reason@ == "world index tile '"@ + r->0@ + "'"@ || reason@
            == "world index tile '"@ + r->0@ + "\""@,
{
    reveal_strlit("world index tile '");
    reveal_strlit("world index entry -> ");
    reveal_strlit("direct map load '");
    reveal_strlit("'");
    reveal_strlit("\"");
    let head = "world index tile '"@;
    assert(head.len() == 18);
    assert("\""@[0] == '"' && "'"@[0] == '\'');
    assert("\""@.len() == 1 && "'"@.len() == 1);
    if reason@ == head + id + "'"@ {
        let left = reason@.skip(18);
        assert(reason@.take(18) =~= head);
        assert(left =~= id + "'"@);
        assert(left.skip(id.len() as int) =~= "'"@);
        assert(left.skip(id.len() as int)[0] == '\'');
        assert(left.take(id.len() as int) =~= id);
    }
    if reason@ == head + id + "\""@ {
        let left = reason@.skip(18);
        assert(reason@.take(18) =~= head);
        assert(left =~= id + "\""@);
        assert(left.skip(id.len() as int) =~= "\""@);
        assert(left.take(id.len() as int) =~= id);
    }
    if reason@ == "world index entry -> "@ + rest && has_head(reason@, head) {
        assert(reason@.take(18)[12] == head[12]);
        assert(reason@[12] == "world index entry -> "@[12]);
        assert(head[12] == 't');
        assert("world index entry -> "@[12] == 'e');
    }
    if reason@ == "direct map load '"@ + rest && has_head(reason@, head) {
        assert(reason@.take(18)[0] == head[0]);
        assert(reason@[0] == "direct map load '"@[0]);
        assert(head[0] == 'w');
        assert("direct map load '"@[0] == 'd');
    }
    if r is Some {
        let left = reason@.skip(18);
        assert(reason@ =~= head + left);
        if has_tail(left, "\""@) {
            assert(left =~= drop_tail(left, "\""@) + "\""@);
            assert(head + (r->0@ + "\""@) =~= head + r->0@ + "\""@);
        } else {
            assert(left =~= drop_tail(left, "'"@) + "'"@);
            assert(head + (r->0@ + "'"@) =~= head + r->0@ + "'"@);
        }
    }
}

/// The navigation mesh of a map stands beside it under the same name, and a file
/// that is not called like a map has none.
pub proof fn law_sidecar(
    path: &str,
    name: &str,
    base: Seq<char>,
    up: Option<String>,
    r: Option<String>,
)
    requires
        call_ensures(navmesh_sidecar_path, (path,), r),
        call_ensures(parent, (path,), up),
        plain_name(name@),
        leads_to(path@, name@),
    ensures
        name@ == base + ".map.toml"@ ==> r is Some && r->0@ == joined_path(
            if up is Some {
                up->0@
            } else {
                "."@
            },
            base + ".navmesh.toml"@,
        ),
        name@.len() < 9 || name@.skip(name@.len() - 9) != ".map.toml"@ ==> r is None,
{
    reveal_strlit(".map.toml");
    assert(".map.toml"@.len() == 9);
    lemma_leads_to(path@, name@);
    assert(name_of(path@) == name@);
    if name@ == base + ".map.toml"@ {
        assert(name@.skip(base.len() as int) =~= ".map.toml"@);
        assert(name@.take(base.len() as int) =~= base);
    }
}

/// What the log says of the navigation mesh beside a map.
pub proof fn law_sidecar_logged(path: &str, read: &SidecarRead, r: String, nav: Option<String>)
    requires
        call_ensures(load_sidecar, (path, read), r),
        call_ensures(navmesh_sidecar_path, (path,), nav),
    ensures
        nav is None ==> r@ == "no navmesh sidecar for map: "@ + path@,
        nav is Some && read is Unreadable ==> r@ == "navmesh missing or unreadable: "@ + nav->0@,
        nav is Some && read is Loaded ==> r@ == "navmesh loaded: "@ + nav->0@,
        nav is Some && read is Failed ==> r@ == "navmesh load failed: "@ + nav->0@ + " ("@
            + read->Failed_0@ + ")"@,
{
}

proof fn lemma_file_at(files: Seq<ModelFile>, model: Seq<char>, k: int)
    requires
        0 <= k <= files.len(),
        k < files.len() ==> files[k].model@ == model,
        forall|j: int| 0 <= j < k ==> (#[trigger] files[j]).model@ != model,
    ensures
        k < files.len() ==> file_of(files, model) == Some(files[k].path@),
        k == files.len() ==> file_of(files, model) is None,
    decreases k,
{
    if k > 0 {
        assert(files[0].model@ != model);
        let rest = files.drop_first();
        assert forall|j: int| 0 <= j < k - 1 implies (#[trigger] rest[j]).model@ != model by {
            assert(rest[j] == files[j + 1]);
        }
        lemma_file_at(rest, model, k - 1);
    }
}

/// The manifest of a model stands beside it, under the name of its file with
/// another ending; a file of any other kind has none.
pub open spec fn manifest_beside(path: Seq<char>, base: Seq<char>, manifest: Option<String>) -> bool {
    &&& path == base + ".adm"@ && !has_tail(base, ".adm"@) ==> manifest is Some && manifest->0@
        == base + ".drawable"@
    &&& path == base + ".glb"@ || path == base + ".gltf"@ ==> manifest is Some && manifest->0@
        == base + ".drawable"@
    &&& !has_tail(path, ".adm"@) && !has_tail(path, ".glb"@) && !has_tail(path, ".gltf"@)
        ==> manifest is None
}

proof fn lemma_manifest(path: Seq<char>, base: Seq<char>, manifest: Option<String>)
    requires
        same_text(manifest, drawable_of(path)),
    ensures
        manifest_beside(path, base, manifest),
{
    reveal_strlit(".adm");
    reveal_strlit(".glb");
    reveal_strlit(".gltf");
    assert(".adm"@.len() == 4 && ".glb"@.len() == 4 && ".gltf"@.len() == 5);
    let n = base.len() as int;
    if path == base + ".adm"@ {
        assert(path.skip(n) =~= ".adm"@);
        assert(path.take(n) =~= base);
        if !has_tail(base, ".adm"@) {
            assert(drop_tails(base, ".adm"@) == base);
        }
    }
    if path == base + ".glb"@ {
        assert(path.skip(n) =~= ".glb"@);
        assert(path.skip(n)[1] == 'g');
        assert(".adm"@[1] == 'a');
        assert(!has_tail(path, ".adm"@));
        lemma_last_index_of(path, '.');
        assert(path[n] == '.' && path[n + 1] == 'g' && path[n + 2] == 'l' && path[n + 3] == 'b');
        assert(last_index(path, '.') == n);
        assert(path.take(n) =~= base);
    }
    if path == base + ".gltf"@ {
        assert(path.skip(n) =~= ".gltf"@);
        assert(path.skip(n + 1)[0] == 'g');
        assert(".adm"@[0] == '.');
        assert(!has_tail(path, ".adm"@));
        lemma_last_index_of(path, '.');
        assert(path[n] == '.' && path[n + 1] == 'g' && path[n + 2] == 'l' && path[n + 3] == 't'
            && path[n + 4] == 'f');
        assert(last_index(path, '.') == n);
        assert(path.take(n) =~= base);
    }
}

/// An instance of a map: it is named after its model and its id, and loads the
/// file that its model is registered with, file `k`: one in the native format as
/// it is, another one by its first scene where it is cached. Where there is no
/// such file, or it is not cached, nothing is loaded and the log says so.
pub proof fn law_instance_placed(
    instance: &MapInstance,
    source: &InstanceSource,
    files: &Vec<ModelFile>,
    cached: &Vec<String>,
    r: InstancePlan,
    k: int,
    path: Seq<char>,
)
    requires
        call_ensures(spawn_map_instance, (instance, source, files, cached), r),
        0 <= k <= files@.len(),
        k < files@.len() ==> files@[k].model@ == instance.model@ && path == replaced(
            files@[k].path@,
            '\\',
            "/"@,
        ),
        forall|j: int| 0 <= j < k ==> (#[trigger] files@[j]).model@ != instance.model@,
    ensures
        instance.id@.len() == 0 ==> r.name@ == "map:"@ + instance.model@,
        instance.id@.len() > 0 ==> r.name@ == "map:"@ + instance.model@ + ":"@ + instance.id@,
        k == files@.len() ==> r.asset is None && r.lines@.len() == 1,
        k < files@.len() && has_tail(path, ".adm"@) ==> (
        r.asset matches Some(InstanceAsset::Adm { path: loaded, info }) && loaded@ == path
            && info.asset_path@ == files@[k].path@) && r.lines@.len() == 1,
        k < files@.len() && !has_tail(path, ".adm"@) && views(cached@).contains(instance.model@)
            ==> (r.asset matches Some(InstanceAsset::Scene { path: loaded, info }) && loaded@
            == path + "#Scene0"@ && info.asset_path@ == loaded@) && r.lines@.len() == 1,
        k < files@.len() && !has_tail(path, ".adm"@) && !views(cached@).contains(instance.model@)
            ==> r.asset is None && r.lines@.len() == 2,
{
    lemma_file_at(files@, instance.model@, k);
    assert(views(r.lines@).len() == r.lines@.len());
}

/// What the debug overlay knows of an instance that is loaded: where it comes
/// from and why, its id or else its model, its tile and its manifest.
pub proof fn law_instance_info(
    instance: &MapInstance,
    source: &InstanceSource,
    files: &Vec<ModelFile>,
    cached: &Vec<String>,
    r: InstancePlan,
    reason: &str,
    tile: Option<String>,
    k: int,
    path: Seq<char>,
    base: Seq<char>,
    info: MapAssetDebugInfo,
)
    requires
        call_ensures(spawn_map_instance, (instance, source, files, cached), r),
        0 <= k < files@.len(),
        files@[k].model@ == instance.model@ && path == replaced(files@[k].path@, '\\', "/"@),
        forall|j: int| 0 <= j < k ==> (#[trigger] files@[j]).model@ != instance.model@,
        reason@ == source.reason@,
        call_ensures(reason_to_tile_id, (reason,), tile),
        match r.asset {
            Some(InstanceAsset::Adm { info: held, .. }) => info == held,
            Some(InstanceAsset::Scene { info: held, .. }) => info == held,
            None => false,
        },
    ensures
        info.reason@ == source.reason@ && info.source_map@ == source.map@ && info.model@
            == instance.model@,
        instance.id@.len() == 0 ==> info.instance_id@ == instance.model@,
        instance.id@.len() > 0 ==> info.instance_id@ == instance.id@,
        info.tile_id is Some <==> tile is Some,
        tile matches Some(t) ==> info.tile_id->0@ == t@,
        manifest_beside(path, base, info.drawable_path),
{
    lemma_file_at(files@, instance.model@, k);
    lemma_manifest(path, base, info.drawable_path);
}

/// What the log says of an instance: which file it asks for and why, and then
/// that none was found for its model or that it cannot be loaded.
pub proof fn law_instance_logged(
    instance: &MapInstance,
    source: &InstanceSource,
    files: &Vec<ModelFile>,
    cached: &Vec<String>,
    r: InstancePlan,
    k: int,
    path: Seq<char>,
    id: Seq<char>,
    manifest: Option<String>,
)
    requires
        call_ensures(spawn_map_instance, (instance, source, files, cached), r),
        0 <= k <= files@.len(),
        k < files@.len() ==> files@[k].model@ == instance.model@ && path == replaced(
            files@[k].path@,
            '\\',
            "/"@,
        ) && same_text(manifest, drawable_of(path)),
        forall|j: int| 0 <= j < k ==> (#[trigger] files@[j]).model@ != instance.model@,
        instance.id@.len() == 0 ==> id == instance.model@,
        instance.id@.len() > 0 ==> id == instance.id@,
    ensures
        k == files@.len() ==> r.lines@[0]@ == "instance '"@ + id + "' from '"@ + source.map@
            + "' requested model '"@ + instance.model@ + "' but registry path was not found"@,
        k < files@.len() ==> r.lines@[0]@ == "instance '"@ + id + "' -> model '"@ + instance.model@
            + "' requested because "@ + source.reason@ + "; asset='"@ + path + "' drawable='"@ + (
        if manifest is Some {
            manifest->0@
        } else {
            "<none>"@
        }) + "'"@,
        r.lines@.len() > 1 ==> r.lines@[1]@ == "instance '"@ + id + "' from '"@ + source.map@
            + "' resolved model '"@ + instance.model@
            + "' but no loadable asset kind matched path '"@ + files@[k].path@ + "'"@,
{
    lemma_file_at(files@, instance.model@, k);
    let lines = views(r.lines@);
    assert(lines.len() == r.lines@.len());
    assert(lines[0] == r.lines@[0]@);
    if lines.len() > 1 {
        assert(lines[1] == r.lines@[1]@);
    }
}

/// A map: one plan for each of its instances, in their order, as each would be
/// planned by itself, for the reason that is given or else for the map itself. A
/// map that cannot be read or makes no sense has none.
pub proof fn law_map_loaded(
    path: &str,
    read: &MapRead,
    reason: &Option<String>,
    files: &Vec<ModelFile>,
    cached: &Vec<String>,
    sidecar: &SidecarRead,
    r: MapLoad,
    nav: String,
    i: int,
    source: InstanceSource,
)
    requires
        call_ensures(load_single_map, (path, read, reason, files, cached, sidecar), r),
        call_ensures(load_sidecar, (path, sidecar), nav),
        read matches MapRead::Instances(v) ==> 0 <= i < v@.len(),
        source.map@ == path@,
        reason matches Some(why) ==> source.reason@ == why@,
        reason is None ==> source.reason@ == "direct map load '"@ + path@ + "'"@,
    ensures
        read is Unreadable ==> r.plans@.len() == 0 && r.lines@.len() == 1 && r.lines@[0]@
            == "failed to read map: "@ + path@,
        read is Invalid ==> r.plans@.len() == 0 && r.lines@.len() == 1 && r.lines@[0]@
            == "invalid map TOML: "@ + path@,
        read matches MapRead::Instances(v) ==> r.plans@.len() == v@.len() && is_instance_plan(
            r.plans@[i],
            v@[i],
            source,
            files@,
            views(cached@),
        ),
        read matches MapRead::Instances(v) ==> r.lines@.len() >= 2 && r.lines@[0]@ == "map loaded: "@
            + path@ + " ("@ + decimal_digits(v@.len()) + " instance(s))"@ && r.lines@.last()@
            == nav@,
        read matches MapRead::Instances(v) ==> forall|j: int|
            0 <= j < r.plans@[i].lines@.len() ==> views(r.lines@).contains(
                (#[trigger] r.plans@[i].lines@[j])@,
            ),
{
    let lines = views(r.lines@);
    assert(lines.len() == r.lines@.len());
    if lines.len() > 0 {
        assert(lines[0] == r.lines@[0]@);
        assert(lines.last() == r.lines@.last()@);
    }
    if let MapRead::Instances(v) = *read {
        let plans = r.plans@;
        let args = (path, read, reason, files, cached, sidecar);
        assert(source.reason@ == reason_or_direct(*args.2, args.0@));
        assert(is_instance_plan(
            r.plans@[i],
            args.1->Instances_0@[i],
            source,
            args.3@,
            views(args.4@),
        ));
        let first = seq![
            "map loaded: "@ + path@ + " ("@ + decimal_digits(v@.len()) + " instance(s))"@,
        ];
        assert(lines == (first + plan_lines(plans)).push(sidecar_line(path@, *sidecar)));
        assert(lines[0] == first[0]);
        assert forall|j: int| 0 <= j < plans[i].lines@.len() implies lines.contains(
            (#[trigger] plans[i].lines@[j])@,
        ) by {
            let line = plans[i].lines@[j]@;
            assert(views(plans[i].lines@)[j] == line);
            lemma_plan_lines(plans, i, line);
            let p = choose|p: int|
                0 <= p < plan_lines(plans).len() && plan_lines(plans)[p] == line;
            assert(lines[p + 1] == line);
        }
    }
}

proof fn lemma_plan_lines(plans: Seq<InstancePlan>, i: int, line: Seq<char>)
    requires
        0 <= i < plans.len(),
        views(plans[i].lines@).contains(line),
    ensures
        plan_lines(plans).contains(line),
    decreases plans.len(),
{
    let front = plan_lines(plans.drop_last());
    let last = views(plans.last().lines@);
    if i + 1 < plans.len() {
        assert(plans.drop_last()[i] == plans[i]);
        lemma_plan_lines(plans.drop_last(), i, line);
        let p = choose|p: int| 0 <= p < front.len() && front[p] == line;
        assert((front + last)[p] == line);
    } else {
        let p = choose|p: int| 0 <= p < last.len() && last[p] == line;
        assert((front + last)[front.len() + p] == line);
    }
}

} // verus!
