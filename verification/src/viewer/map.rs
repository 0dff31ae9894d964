//! What the map viewer shows: its switches, the bounds of the scene, its log
//! and its overlays.

use std::collections::{HashMap, HashSet};

use vstd::prelude::*;
use vstd::utf8::encode_utf8;

use crate::console::last_lines;
use crate::folds::lemma_take_next;
use crate::hierarchy::{
    ancestor, first_marked, forest, lemma_marked_above, nearest_marked, none_marked,
};
use crate::names::views;
use crate::physics::{CollisionShape, Extent};
use crate::scalar::{lifted, scalar, Scalar, ONE};
use crate::text::{
    bytes_of, concat, decimal, decimal_digits, join, joined, push_line, same,
};
use crate::viewer::settings::{
    half_of, half_or_standard, number_of, or_standard, Outline, PARTS_30, PARTS_50,
};

verus! {

/// How many entries the log keeps.
pub const LOG_SIZE: usize = 80;

/// How many entries the overlay shows.
pub const LOG_SHOWN: usize = 24;

/// 10 and 20: the least radius of a scene, and that of an empty one.
pub const LEAST_RADIUS: u32 = 0x4120_0000;

pub const EMPTY_RADIUS: u32 = 0x41a0_0000;

/// What the viewer shows.
#[derive(Clone, Copy, PartialEq, Eq, Structural, Debug)]
pub struct MapSettings {
    pub grid_visible: bool,
    pub colliders_visible: bool,
    pub navmesh_visible: bool,
    pub tile_overlay_visible: bool,
    pub meshes_visible: bool,
    pub overlay_visible: bool,
    pub debug_visible: bool,
}

impl Default for MapSettings {
    fn default() -> (r: Self)
        ensures
            r == (MapSettings {
                grid_visible: true,
                colliders_visible: true,
                navmesh_visible: true,
                tile_overlay_visible: true,
                meshes_visible: true,
                overlay_visible: true,
                debug_visible: false,
            }),
    {
        MapSettings {
            grid_visible: true,
            colliders_visible: true,
            navmesh_visible: true,
            tile_overlay_visible: true,
            meshes_visible: true,
            overlay_visible: true,
            debug_visible: false,
        }
    }
}

/// The keys that went down in this frame.
#[derive(Clone, Copy, PartialEq, Eq, Structural, Debug)]
pub struct MapKeys {
    pub grid: bool,
    pub colliders: bool,
    pub navmesh: bool,
    pub tiles: bool,
    pub overlay: bool,
    pub debug: bool,
    pub meshes: bool,
    pub refit: bool,
}

/// What the keys ask of the scene: meshes to show or hide, and the camera to
/// be fitted to the bounds.
#[derive(Clone, Copy, PartialEq, Eq, Debug)]
pub struct MapKeyEffect {
    pub meshes: Option<bool>,
    pub refit: bool,
}

pub open spec fn flipped(s: MapSettings, k: MapKeys) -> MapSettings {
    MapSettings {
        grid_visible: s.grid_visible != k.grid,
        colliders_visible: s.colliders_visible != k.colliders,
        navmesh_visible: s.navmesh_visible != k.navmesh,
        tile_overlay_visible: s.tile_overlay_visible != k.tiles,
        meshes_visible: s.meshes_visible != k.meshes,
        overlay_visible: s.overlay_visible != k.overlay,
        debug_visible: s.debug_visible != k.debug,
    }
}

/// Flips what the keys stand for.
pub fn handle_map_keyboard(settings: &mut MapSettings, keys: MapKeys) -> (r: MapKeyEffect)
    ensures
        *final(settings) == flipped(*old(settings), keys),
        r.meshes == (if keys.meshes {
            Some(!old(settings).meshes_visible)
        } else {
            None
        }),
        r.refit == keys.refit,
{
    settings.grid_visible = settings.grid_visible != keys.grid;
    settings.colliders_visible = settings.colliders_visible != keys.colliders;
    settings.navmesh_visible = settings.navmesh_visible != keys.navmesh;
    settings.tile_overlay_visible = settings.tile_overlay_visible != keys.tiles;
    settings.overlay_visible = settings.overlay_visible != keys.overlay;
    settings.debug_visible = settings.debug_visible != keys.debug;
    settings.meshes_visible = settings.meshes_visible != keys.meshes;
    let meshes = if keys.meshes {
        Some(settings.meshes_visible)
    } else {
        None
    };
    MapKeyEffect { meshes, refit: keys.refit }
}

/// Pressing the same keys again takes the switches back.
pub proof fn law_keys_twice(s: MapSettings, k: MapKeys)
    ensures
        flipped(flipped(s, k), k) == s,
{
}

/// The box round what a scene holds; none while it is empty.
#[derive(Clone, Copy, PartialEq, Eq, Debug)]
pub struct SceneBounds {
    pub low: Option<Extent>,
    pub high: Option<Extent>,
}

pub open spec fn least(a: Extent, b: Extent) -> Extent {
    Extent { x: a.x.smaller(b.x), y: a.y.smaller(b.y), z: a.z.smaller(b.z) }
}

pub open spec fn greatest(a: Extent, b: Extent) -> Extent {
    Extent { x: a.x.larger(b.x), y: a.y.larger(b.y), z: a.z.larger(b.z) }
}

impl SceneBounds {
    pub fn empty() -> (r: Self)
        ensures
            r == (SceneBounds { low: None, high: None }),
    {
        SceneBounds { low: None, high: None }
    }

    /// The bounds with the box from `low` to `high` in them.
    pub open spec fn with_box(self, low: Extent, high: Extent) -> SceneBounds {
        match (self.low, self.high) {
            (Some(l), Some(h)) => SceneBounds {
                low: Some(least(l, low)),
                high: Some(greatest(h, high)),
            },
            _ => SceneBounds { low: Some(low), high: Some(high) },
        }
    }

    pub fn include_aabb(&mut self, low: Extent, high: Extent)
        ensures
            *final(self) == old(self).with_box(low, high),
    {
        match (self.low, self.high) {
            (Some(l), Some(h)) => {
                self.low = Some(Extent { x: l.x.min(low.x), y: l.y.min(low.y), z: l.z.min(low.z) });
                self.high = Some(
                    Extent { x: h.x.max(high.x), y: h.y.max(high.y), z: h.z.max(high.z) },
                );
            },
            _ => {
                self.low = Some(low);
                self.high = Some(high);
            },
        }
    }

    pub fn include_point(&mut self, point: Extent)
        ensures
            *final(self) == old(self).with_box(point, point),
    {
        self.include_aabb(point, point);
    }

    /// Takes in the two far corners of a thing, one after the other.
    pub fn include_transform(&mut self, low: Extent, high: Extent)
        ensures
            *final(self) == old(self).with_box(low, low).with_box(high, high),
    {
        self.include_point(low);
        self.include_point(high);
    }

    /// The radius of the scene, from the length of the diagonal of the bounds.
    pub fn radius(&self, diagonal: Scalar) -> (r: Scalar)
        ensures
            r == (if self.low is Some && self.high is Some {
                diagonal.larger(scalar(LEAST_RADIUS))
            } else {
                scalar(EMPTY_RADIUS)
            }),
    {
        match (self.low, self.high) {
            (Some(_), Some(_)) => diagonal.max(scalar(LEAST_RADIUS)),
            _ => scalar(EMPTY_RADIUS),
        }
    }
}

pub open spec fn is_number(p: Extent) -> bool {
    !p.x.nan() && !p.y.nan() && !p.z.nan()
}

pub open spec fn within(p: Extent, low: Extent, high: Extent) -> bool {
    &&& low.x.at_most(p.x) && p.x.at_most(high.x)
    &&& low.y.at_most(p.y) && p.y.at_most(high.y)
    &&& low.z.at_most(p.z) && p.z.at_most(high.z)
}

pub open spec fn holds_point(b: SceneBounds, p: Extent) -> bool {
    match (b.low, b.high) {
        (Some(low), Some(high)) => within(p, low, high),
        _ => false,
    }
}

/// The bounds of points that come one by one.
pub open spec fn bounds_of(points: Seq<Extent>) -> SceneBounds
    decreases points.len(),
{
    if points.len() == 0 {
        SceneBounds { low: None, high: None }
    } else {
        bounds_of(points.drop_last()).with_box(points.last(), points.last())
    }
}

/// The bounds hold every point that was taken in.
pub proof fn law_bounds_hold_points(points: Seq<Extent>, i: int)
    requires
        0 <= i < points.len(),
        forall|j: int| 0 <= j < points.len() ==> is_number(#[trigger] points[j]),
    ensures
        holds_point(bounds_of(points), points[i]),
    decreases points.len(),
{
    let front = points.drop_last();
    assert forall|j: int| 0 <= j < front.len() implies is_number(#[trigger] front[j]) by {
        assert(front[j] == points[j]);
    }
    assert(is_number(points.last()));
    if i < front.len() {
        assert(front[i] == points[i]);
        law_bounds_hold_points(front, i);
    } else if front.len() > 0 {
        law_bounds_hold_points(front, 0);
    }
}

/// Where a scene is bounded, its radius is at least the least one.
pub proof fn law_radius_at_least(diagonal: Scalar)
    ensures
        scalar(LEAST_RADIUS).at_most(diagonal.larger(scalar(LEAST_RADIUS))),
{
}

/// The log of the viewer.
#[derive(Clone, Debug)]
pub struct DebugLog {
    pub entries: Vec<String>,
}

pub open spec fn logged(entries: Seq<Seq<char>>, lines: Seq<Seq<char>>) -> Seq<Seq<char>>
    decreases lines.len(),
{
    if lines.len() == 0 {
        entries
    } else {
        last_lines(logged(entries, lines.drop_last()).push(lines.last()), LOG_SIZE as nat)
    }
}

impl DebugLog {
    pub fn new() -> (r: Self)
        ensures
            views(r.entries@) == Seq::<Seq<char>>::empty(),
    {
        let entries: Vec<String> = Vec::new();
        assert(views(entries@) =~= Seq::<Seq<char>>::empty());
        DebugLog { entries }
    }

    /// Adds an entry; the oldest ones leave.
    pub fn push(&mut self, message: String)
        ensures
            views(final(self).entries@) == last_lines(
                views(old(self).entries@).push(message@),
                LOG_SIZE as nat,
            ),
    {
        let ghost all = views(self.entries@).push(message@);
        self.entries.push(message);
        assert(views(self.entries@) =~= all);
        let n = self.entries.len();
        if n > LOG_SIZE {
            let kept = self.entries.split_off(n - LOG_SIZE);
            assert(views(kept@) =~= all.skip(all.len() - LOG_SIZE));
            self.entries = kept;
        }
    }

    /// Adds entries, one by one.
    pub fn push_all(&mut self, lines: &Vec<String>)
        ensures
            views(final(self).entries@) == logged(views(old(self).entries@), views(lines@)),
    {
        let ghost before = views(self.entries@);
        let ghost all = views(lines@);
        let mut i: usize = 0;
        assert(all.take(0) =~= Seq::<Seq<char>>::empty());
        while i < lines.len()
            invariant
                i <= lines.len(),
                all == views(lines@),
                views(self.entries@) == logged(before, all.take(i as int)),
            decreases lines.len() - i,
        {
            proof {
                lemma_take_next(all, i as int);
                assert(all.take(i + 1).last() == lines[i as int]@);
            }
            self.push(lines[i].as_str().to_string());
            i = i + 1;
        }
        assert(all.take(i as int) =~= all);
    }
}

/// A log that starts empty holds the last entries that it was given.
pub proof fn law_log_keeps_last(lines: Seq<Seq<char>>)
    ensures
        logged(Seq::empty(), lines) == last_lines(lines, LOG_SIZE as nat),
    decreases lines.len(),
{
    if lines.len() > 0 {
        law_log_keeps_last(lines.drop_last());
        let kept = last_lines(lines.drop_last(), LOG_SIZE as nat).push(lines.last());
        assert(last_lines(kept, LOG_SIZE as nat) =~= last_lines(lines, LOG_SIZE as nat));
    }
}

/// The hash of some bytes: times a prime, then exclusive or with the byte.
pub open spec fn byte_hash(bytes: Seq<u8>) -> u32
    decreases bytes.len(),
{
    if bytes.len() == 0 {
        0
    } else {
        byte_hash(bytes.drop_last()).wrapping_mul(16777619) ^ (bytes.last() as u32)
    }
}

/// The hue, in degrees, in which a tile is drawn.
pub fn tile_color(seed: &str) -> (r: u32)
    ensures
        r == byte_hash(encode_utf8(seed@)) % 360,
        r < 360,
{
    let bytes = bytes_of(seed);
    let mut hash: u32 = 0;
    let mut i: usize = 0;
    assert(bytes@.take(0) =~= Seq::<u8>::empty());
    while i < bytes.len()
        invariant
            i <= bytes.len(),
            hash == byte_hash(bytes@.take(i as int)),
        decreases bytes.len() - i,
    {
        proof {
            lemma_take_next(bytes@, i as int);
        }
        hash = hash.wrapping_mul(16777619) ^ (bytes[i] as u32);
        i = i + 1;
    }
    assert(bytes@.take(i as int) =~= bytes@);
    hash % 360
}

/// How far a tile reaches in the overlay.
pub fn tile_radius(load_radius: Scalar) -> (r: Scalar)
    ensures
        r == load_radius.larger(scalar(ONE)),
{
    load_radius.max(scalar(ONE))
}

/// The root of the thing that a mesh belongs to: the nearest marked entity.
pub fn find_debug_root(
    start: u64,
    parents: &HashMap<u64, u64>,
    roots: &HashSet<u64>,
) -> (r: Option<u64>)
    requires
        forest(parents@),
    ensures
        match r {
            Some(found) => exists|n: nat| first_marked(parents@, roots@, start, 0, n, found),
            None => none_marked(parents@, roots@, start, 0),
        },
{
    nearest_marked(parents, roots, start)
}

/// How far the loading of an asset is.
#[derive(Clone, Copy, PartialEq, Eq, Structural, Debug)]
pub enum LoadStage {
    Loaded,
    Loading,
    NotLoaded,
    Failed,
}

pub open spec fn stage_name(stage: Option<LoadStage>) -> Seq<char> {
    match stage {
        Some(LoadStage::Loaded) => "Loaded"@,
        Some(LoadStage::Loading) => "Loading"@,
        Some(LoadStage::NotLoaded) => "NotLoaded"@,
        Some(LoadStage::Failed) => "Failed"@,
        None => "Unknown"@,
    }
}

pub fn load_state_label(stage: Option<LoadStage>) -> (r: &'static str)
    ensures
        r@ == stage_name(stage),
{
    match stage {
        Some(LoadStage::Loaded) => "Loaded",
        Some(LoadStage::Loading) => "Loading",
        Some(LoadStage::NotLoaded) => "NotLoaded",
        Some(LoadStage::Failed) => "Failed",
        None => "Unknown",
    }
}

/// What the debug overlay says of an asset of a map.
#[derive(Clone, Debug)]
pub struct MapAssetDebugInfo {
    pub reason: String,
    pub source_map: String,
    pub instance_id: String,
    pub tile_id: Option<String>,
    pub model: String,
    pub asset_path: String,
    pub drawable_path: Option<String>,
}

/// The hue of an asset: that of its tile, else its own.
pub fn asset_color(info: &MapAssetDebugInfo) -> (r: u32)
    ensures
        r == byte_hash(
            encode_utf8(
                match info.tile_id {
                    Some(id) => id@,
                    None => info.instance_id@,
                },
            ),
        ) % 360,
{
    match &info.tile_id {
        Some(id) => tile_color(id.as_str()),
        None => tile_color(info.instance_id.as_str()),
    }
}

/// The numbers of the overlay, as they are written with one digit behind the
/// point.
#[derive(Clone, Debug)]
pub struct BoundsText {
    pub x: String,
    pub y: String,
    pub z: String,
    pub radius: String,
}

pub open spec fn on_or_off(value: bool) -> Seq<char> {
    if value {
        "on"@
    } else {
        "off"@
    }
}

fn on_off(value: bool) -> (r: &'static str)
    ensures
        r@ == on_or_off(value),
{
    if value {
        "on"
    } else {
        "off"
    }
}

pub open spec fn overlay_text(s: MapSettings, input: Seq<char>, b: BoundsText) -> Seq<char> {
    "Map Viewer\nSoubor: "@ + input
        + "\nG grid | M mesh | C colliders | N navmesh | T tiles | D debug | R refit | H overlay\nGrid: "@
        + on_or_off(s.grid_visible) + " | Mesh: "@ + on_or_off(s.meshes_visible) + " | Colliders: "@
        + on_or_off(s.colliders_visible) + " | Navmesh: "@ + on_or_off(s.navmesh_visible)
        + " | Tiles: "@ + on_or_off(s.tile_overlay_visible) + " | Debug: "@ + on_or_off(s.debug_visible)
        + "\nBounds center: "@ + b.x@ + ", "@ + b.y@ + ", "@ + b.z@ + " | radius "@ + b.radius@
}

/// The overlay, where it is shown.
pub fn update_overlay(settings: MapSettings, input: &str, bounds: &BoundsText) -> (r: Option<
    String,
>)
    ensures
        r is Some <==> settings.overlay_visible,
        r matches Some(text) ==> text@ == overlay_text(settings, input@, *bounds),
{
    if !settings.overlay_visible {
        return None;
    }
    let mut r = concat("Map Viewer\nSoubor: ", input);
    r.append(
        "\nG grid | M mesh | C colliders | N navmesh | T tiles | D debug | R refit | H overlay\nGrid: ",
    );
    r.append(on_off(settings.grid_visible));
    r.append(" | Mesh: ");
    r.append(on_off(settings.meshes_visible));
    r.append(" | Colliders: ");
    r.append(on_off(settings.colliders_visible));
    r.append(" | Navmesh: ");
    r.append(on_off(settings.navmesh_visible));
    r.append(" | Tiles: ");
    r.append(on_off(settings.tile_overlay_visible));
    r.append(" | Debug: ");
    r.append(on_off(settings.debug_visible));
    r.append("\nBounds center: ");
    r.append(bounds.x.as_str());
    r.append(", ");
    r.append(bounds.y.as_str());
    r.append(", ");
    r.append(bounds.z.as_str());
    r.append(" | radius ");
    r.append(bounds.radius.as_str());
    Some(r)
}

/// An asset of a map and how far its loading is.
#[derive(Clone, Debug)]
pub struct TrackedAsset {
    pub info: MapAssetDebugInfo,
    pub stage: Option<LoadStage>,
}

pub open spec fn drawable_text(path: Option<String>) -> Seq<char> {
    match path {
        Some(p) => p@,
        None => "<none>"@,
    }
}

pub open spec fn asset_line(kind: Seq<char>, a: TrackedAsset) -> Seq<char> {
    kind + " ["@ + a.info.instance_id@ + "] model='"@ + a.info.model@ + "' state="@ + stage_name(
        a.stage,
    ) + " map='"@ + a.info.source_map@ + "' why="@ + a.info.reason@ + " asset='"@
        + a.info.asset_path@ + "' drawable='"@ + drawable_text(a.info.drawable_path) + "'"@
}

fn asset_text(kind: &str, a: &TrackedAsset) -> (r: String)
    ensures
        r@ == asset_line(kind@, *a),
{
    let mut r = concat(kind, " [");
    r.append(a.info.instance_id.as_str());
    r.append("] model='");
    r.append(a.info.model.as_str());
    r.append("' state=");
    r.append(load_state_label(a.stage));
    r.append(" map='");
    r.append(a.info.source_map.as_str());
    r.append("' why=");
    r.append(a.info.reason.as_str());
    r.append(" asset='");
    r.append(a.info.asset_path.as_str());
    r.append("' drawable='");
    match &a.info.drawable_path {
        Some(p) => r.append(p.as_str()),
        None => r.append("<none>"),
    }
    r.append("'");
    r
}

pub open spec fn with_assets(
    lines: Seq<Seq<char>>,
    kind: Seq<char>,
    assets: Seq<TrackedAsset>,
) -> Seq<Seq<char>>
    decreases assets.len(),
{
    if assets.len() == 0 {
        lines
    } else {
        with_assets(lines, kind, assets.drop_last()).push(asset_line(kind, assets.last()))
    }
}

fn push_assets(lines: &mut Vec<String>, kind: &str, assets: &Vec<TrackedAsset>)
    ensures
        views(final(lines)@) == with_assets(views(old(lines)@), kind@, assets@),
{
    let ghost before = views(lines@);
    let mut i: usize = 0;
    assert(assets@.take(0) =~= Seq::<TrackedAsset>::empty());
    while i < assets.len()
        invariant
            i <= assets.len(),
            views(lines@) == with_assets(before, kind@, assets@.take(i as int)),
        decreases assets.len() - i,
    {
        proof {
            lemma_take_next(assets@, i as int);
        }
        push_line(lines, asset_text(kind, &assets[i]));
        i = i + 1;
    }
    assert(assets@.take(i as int) =~= assets@);
}

pub open spec fn debug_lines(
    adm: Seq<TrackedAsset>,
    scenes: Seq<TrackedAsset>,
    navmeshes: nat,
    entries: Seq<Seq<char>>,
) -> Seq<Seq<char>> {
    let head = seq![
        "Debug Load Info"@,
        "tracked assets: "@ + decimal_digits(adm.len() + scenes.len()),
        "loaded navmeshes: "@ + decimal_digits(navmeshes),
        ""@,
        "Asset States:"@,
    ];
    with_assets(with_assets(head, "ADM"@, adm), "SCENE"@, scenes).push(""@).push("Recent Log:"@)
        + last_lines(entries, LOG_SHOWN as nat)
}

/// The debug overlay, where it is shown.
pub fn update_debug_overlay(
    settings: MapSettings,
    adm: &Vec<TrackedAsset>,
    scenes: &Vec<TrackedAsset>,
    navmeshes: usize,
    log: &DebugLog,
) -> (r: Option<String>)
    requires
        adm.len() + scenes.len() <= u64::MAX,
    ensures
        r is Some <==> settings.debug_visible,
        r matches Some(text) ==> text@ == joined(
            debug_lines(adm@, scenes@, navmeshes as nat, views(log.entries@)),
            "\n"@,
        ),
{
    if !settings.debug_visible {
        return None;
    }
    let mut lines: Vec<String> = Vec::new();
    push_line(&mut lines, "Debug Load Info".to_string());
    let count = decimal(adm.len() as u64 + scenes.len() as u64);
    push_line(&mut lines, concat("tracked assets: ", count.as_str()));
    let loaded = decimal(navmeshes as u64);
    push_line(&mut lines, concat("loaded navmeshes: ", loaded.as_str()));
    push_line(&mut lines, "".to_string());
    push_line(&mut lines, "Asset States:".to_string());
    let ghost head = seq![
        "Debug Load Info"@,
        "tracked assets: "@ + decimal_digits(adm@.len() + scenes@.len()),
        "loaded navmeshes: "@ + decimal_digits(navmeshes as nat),
        ""@,
        "Asset States:"@,
    ];
    assert(views(lines@) =~= head);
    push_assets(&mut lines, "ADM", adm);
    push_assets(&mut lines, "SCENE", scenes);
    push_line(&mut lines, "".to_string());
    push_line(&mut lines, "Recent Log:".to_string());
    let ghost before = views(lines@);
    let ghost entries = views(log.entries@);
    let n = log.entries.len();
    let from: usize = if n > LOG_SHOWN {
        n - LOG_SHOWN
    } else {
        0
    };
    let ghost shown = last_lines(entries, LOG_SHOWN as nat);
    assert(entries.len() == n);
    assert(shown =~= entries.skip(from as int));
    let mut i: usize = from;
    assert(before + shown.take(0) =~= before);
    while i < log.entries.len()
        invariant
            from <= i <= log.entries.len(),
            entries == views(log.entries@),
            entries.len() == log.entries.len(),
            shown == entries.skip(from as int),
            views(lines@) == before + shown.take(i - from),
        decreases log.entries.len() - i,
    {
        assert(shown.take(i + 1 - from) =~= shown.take(i - from).push(log.entries[i as int]@));
        push_line(&mut lines, log.entries[i].as_str().to_string());
        assert(views(lines@) =~= before + shown.take(i + 1 - from));
        i = i + 1;
    }
    assert(shown.take(i - from) =~= shown);
    Some(join(&lines, "\n"))
}

/// The kinds of ground that a navigation mesh tells apart by color.
#[derive(Clone, Copy, PartialEq, Eq, Structural, Debug)]
pub enum SurfaceTone {
    Ground,
    Water,
    Underwater,
    Climbable,
    Other,
}

pub fn navmesh_surface_color(surface_type: &str) -> (r: SurfaceTone)
    ensures
        r == (if surface_type@ == "ground"@ {
            SurfaceTone::Ground
        } else if surface_type@ == "water"@ {
            SurfaceTone::Water
        } else if surface_type@ == "underwater"@ {
            SurfaceTone::Underwater
        } else if surface_type@ == "climb"@ || surface_type@ == "climbable"@ {
            SurfaceTone::Climbable
        } else {
            SurfaceTone::Other
        }),
{
    if same(surface_type, "ground") {
        SurfaceTone::Ground
    } else if same(surface_type, "water") {
        SurfaceTone::Water
    } else if same(surface_type, "underwater") {
        SurfaceTone::Underwater
    } else if same(surface_type, "climb") || same(surface_type, "climbable") {
        SurfaceTone::Climbable
    } else {
        SurfaceTone::Other
    }
}

/// The corners of a face by their numbers.
#[derive(Clone, Copy, PartialEq, Eq, Structural, Debug)]
pub struct Face {
    pub a: u32,
    pub b: u32,
    pub c: u32,
}

pub open spec fn face_fits(f: Face, vertices: nat) -> bool {
    f.a < vertices && f.b < vertices && f.c < vertices
}

/// The faces all of whose corners there are.
pub open spec fn drawn_faces(faces: Seq<Face>, vertices: nat) -> Seq<Face>
    decreases faces.len(),
{
    if faces.len() == 0 {
        Seq::empty()
    } else {
        let front = drawn_faces(faces.drop_last(), vertices);
        if face_fits(faces.last(), vertices) {
            front.push(faces.last())
        } else {
            front
        }
    }
}

pub fn draw_navmeshes(visible: bool, faces: &Vec<Face>, vertices: usize) -> (r: Vec<Face>)
    ensures
        r@ == (if visible {
            drawn_faces(faces@, vertices as nat)
        } else {
            Seq::<Face>::empty()
        }),
{
    let mut r: Vec<Face> = Vec::new();
    if !visible {
        return r;
    }
    let mut i: usize = 0;
    assert(faces@.take(0) =~= Seq::<Face>::empty());
    while i < faces.len()
        invariant
            i <= faces.len(),
            r@ == drawn_faces(faces@.take(i as int), vertices as nat),
        decreases faces.len() - i,
    {
        proof {
            lemma_take_next(faces@, i as int);
        }
        let f = faces[i];
        let n: u64 = vertices as u64;
        if (f.a as u64) < n && (f.b as u64) < n && (f.c as u64) < n {
            r.push(f);
        }
        i = i + 1;
    }
    assert(faces@.take(i as int) =~= faces@);
    r
}

/// The colors of colliders, by shape.
#[derive(Clone, Copy, PartialEq, Eq, Structural, Debug)]
pub enum ShapeTone {
    Navmesh,
    Mesh,
    Sphere,
    Capsule,
    Cylinder,
    Box,
}

pub open spec fn tone_of(shape: CollisionShape) -> ShapeTone {
    match shape {
        CollisionShape::Navmesh => ShapeTone::Navmesh,
        CollisionShape::Mesh => ShapeTone::Mesh,
        CollisionShape::Convex => ShapeTone::Mesh,
        CollisionShape::Sphere => ShapeTone::Sphere,
        CollisionShape::Capsule => ShapeTone::Capsule,
        CollisionShape::Cylinder => ShapeTone::Cylinder,
        CollisionShape::Box => ShapeTone::Box,
    }
}

fn shape_color(shape: CollisionShape) -> (r: ShapeTone)
    ensures
        r == tone_of(shape),
{
    match shape {
        CollisionShape::Navmesh => ShapeTone::Navmesh,
        CollisionShape::Mesh | CollisionShape::Convex => ShapeTone::Mesh,
        CollisionShape::Sphere => ShapeTone::Sphere,
        CollisionShape::Capsule => ShapeTone::Capsule,
        CollisionShape::Cylinder => ShapeTone::Cylinder,
        CollisionShape::Box => ShapeTone::Box,
    }
}

/// The outline and the color of a collider. Meshes are drawn as boxes.
pub fn draw_map_colliders(
    shape: CollisionShape,
    half: Option<Extent>,
    radius: Option<Scalar>,
    height: Option<Scalar>,
) -> (r: (Outline, ShapeTone))
    ensures
        r.0 == match shape {
            CollisionShape::Sphere => Outline::Sphere { radius: or_standard(radius, PARTS_50) },
            CollisionShape::Capsule => Outline::Capsule {
                radius: or_standard(radius, PARTS_30),
                height,
            },
            CollisionShape::Cylinder => Outline::Cylinder {
                radius: or_standard(radius, PARTS_50),
                height,
            },
            _ => Outline::Box { half: half_or_standard(half) },
        },
        r.1 == tone_of(shape),
{
    let outline = match shape {
        CollisionShape::Sphere => Outline::Sphere { radius: number_of(radius, PARTS_50) },
        CollisionShape::Capsule => Outline::Capsule {
            radius: number_of(radius, PARTS_30),
            height,
        },
        CollisionShape::Cylinder => Outline::Cylinder {
            radius: number_of(radius, PARTS_50),
            height,
        },
        _ => Outline::Box { half: half_of(half) },
    };
    (outline, shape_color(shape))
}

/// Each key switches what it stands for and nothing else; the key of the meshes
/// also has them shown or hidden, and another one has the camera fitted.
pub proof fn law_map_keys(settings: &mut MapSettings, keys: MapKeys, r: MapKeyEffect)
    requires
        call_ensures(handle_map_keyboard, (settings, keys), r),
    ensures
        keys.grid <==> final(settings).grid_visible != old(settings).grid_visible,
        keys.colliders <==> final(settings).colliders_visible != old(settings).colliders_visible,
        keys.navmesh <==> final(settings).navmesh_visible != old(settings).navmesh_visible,
        keys.tiles <==> final(settings).tile_overlay_visible != old(settings).tile_overlay_visible,
        keys.overlay <==> final(settings).overlay_visible != old(settings).overlay_visible,
        keys.debug <==> final(settings).debug_visible != old(settings).debug_visible,
        keys.meshes <==> final(settings).meshes_visible != old(settings).meshes_visible,
        r.meshes is Some <==> keys.meshes,
        keys.meshes ==> r.meshes == Some(final(settings).meshes_visible),
        r.refit == keys.refit,
{
}

/// `got` is one of two numbers, and neither lies below it.
pub open spec fn lower_of(a: Scalar, b: Scalar, got: Scalar) -> bool {
    (got == a || got == b) && got.at_most(a) && got.at_most(b)
}

/// `got` is one of two numbers, and neither lies above it.
pub open spec fn upper_of(a: Scalar, b: Scalar, got: Scalar) -> bool {
    (got == a || got == b) && a.at_most(got) && b.at_most(got)
}

/// Bounds that take a box in reach just as far as they and the box did; empty
/// bounds are then the box. A point is a box of its own, and a thing is taken in
/// by its two corners.
pub proof fn law_bounds_grow(
    b: &mut SceneBounds,
    of_point: &mut SceneBounds,
    of_thing: &mut SceneBounds,
    low: Extent,
    high: Extent,
)
    requires
        call_ensures(SceneBounds::include_aabb, (b, low, high), ()),
        call_ensures(SceneBounds::include_point, (of_point, low), ()),
        call_ensures(SceneBounds::include_transform, (of_thing, low, high), ()),
        *old(of_point) == *old(b),
        *old(of_thing) == *old(b),
        is_number(low) && is_number(high),
        old(b).low is Some <==> old(b).high is Some,
        old(b).low matches Some(l) ==> is_number(l),
        old(b).high matches Some(h) ==> is_number(h),
    ensures
        final(b).low is Some && final(b).high is Some,
        old(b).low is None ==> final(b).low == Some(low) && final(b).high == Some(high),
        old(b).low matches Some(l) ==> {
            let f = final(b).low->0;
            lower_of(l.x, low.x, f.x) && lower_of(l.y, low.y, f.y) && lower_of(l.z, low.z, f.z)
        },
        old(b).high matches Some(h) ==> {
            let f = final(b).high->0;
            upper_of(h.x, high.x, f.x) && upper_of(h.y, high.y, f.y) && upper_of(h.z, high.z, f.z)
        },
        holds_point(*final(b), low) || !within(low, low, high),
        holds_point(*final(of_point), low),
        old(b).low is None ==> *final(of_point) == (SceneBounds { low: Some(low), high: Some(low) }),
        holds_point(*final(of_thing), low) && holds_point(*final(of_thing), high),
        old(b).low matches Some(l) ==> holds_point(*final(of_point), l) || !within(
            l,
            l,
            old(b).high->0,
        ),
{
}

/// The radius of bounds is the length of their diagonal, but ten at least; that
/// of empty ones is twenty.
pub proof fn law_scene_radius(b: &SceneBounds, diagonal: Scalar, r: Scalar)
    requires
        call_ensures(SceneBounds::radius, (b, diagonal), r),
    ensures
        b.low is Some && b.high is Some ==> lifted(diagonal, scalar(0x4120_0000), r),
        b.low is None || b.high is None ==> r == scalar(0x41a0_0000),
{
}

/// A new entry is the last one of the log, behind those that were there; of more
/// than eighty the oldest leave.
pub proof fn law_log_push(log: &mut DebugLog, message: String, i: int)
    requires
        call_ensures(DebugLog::push, (log, message), ()),
        0 <= i < final(log).entries@.len(),
    ensures
        final(log).entries@.len() == (if old(log).entries@.len() < 80 {
            (old(log).entries@.len() + 1) as int
        } else {
            80
        }),
        final(log).entries@.last()@ == message@,
        i + 1 < final(log).entries@.len() ==> final(log).entries@[i]@ == old(log).entries@[old(log).entries@.len() + 1 - final(log).entries@.len() + i]@,
{
    let before = views(old(log).entries@);
    let after = views(final(log).entries@);
    assert(before.len() == old(log).entries@.len());
    assert(after.len() == final(log).entries@.len());
    assert(after.last() == final(log).entries@.last()@);
    assert(after[i] == final(log).entries@[i]@);
    if i + 1 < after.len() {
        let k = before.len() + 1 - after.len() + i;
        assert(before[k] == old(log).entries@[k]@);
    }
}

proof fn lemma_logged(entries: Seq<Seq<char>>, lines: Seq<Seq<char>>)
    requires
        entries.len() <= LOG_SIZE,
    ensures
        logged(entries, lines) == last_lines(entries + lines, LOG_SIZE as nat),
    decreases lines.len(),
{
    if lines.len() == 0 {
        assert(entries + lines =~= entries);
    } else {
        let front = lines.drop_last();
        lemma_logged(entries, front);
        let all = entries + lines;
        assert(all =~= (entries + front).push(lines.last()));
        assert(logged(entries, lines) =~= last_lines(all, LOG_SIZE as nat));
    }
}

/// Entries that are added together: what was in the log and then the new entries,
/// of which the last eighty stay.
pub proof fn law_log_push_all(log: &mut DebugLog, lines: &Vec<String>, i: int)
    requires
        call_ensures(DebugLog::push_all, (log, lines), ()),
        old(log).entries@.len() <= 80,
        0 <= i < final(log).entries@.len(),
    ensures
        final(log).entries@.len() == (if old(log).entries@.len() + lines@.len() < 80 {
            old(log).entries@.len() + lines@.len()
        } else {
            80
        }),
        ({
            let k = old(log).entries@.len() + lines@.len() - final(log).entries@.len() + i;
            final(log).entries@[i]@ == (if k < old(log).entries@.len() {
                old(log).entries@[k]@
            } else {
                lines@[k - old(log).entries@.len()]@
            })
        }),
{
    let before = views(old(log).entries@);
    let more = views(lines@);
    let after = views(final(log).entries@);
    assert(before.len() == old(log).entries@.len());
    assert(more.len() == lines@.len());
    assert(after.len() == final(log).entries@.len());
    lemma_logged(before, more);
    assert(after[i] == final(log).entries@[i]@);
    let k = before.len() + more.len() - after.len() + i;
    assert(after[i] == (before + more)[k]);
    if k < before.len() {
        assert(before[k] == old(log).entries@[k]@);
    } else {
        assert(more[k - before.len()] == lines@[k - before.len()]@);
    }
}

proof fn lemma_hashes(bytes: Seq<u8>, hashes: Seq<u32>)
    requires
        hashes.len() == bytes.len() + 1,
        hashes[0] == 0,
        forall|i: int|
            0 <= i < bytes.len() ==> hashes[i + 1] == hashes[i].wrapping_mul(16777619) ^ (
            #[trigger] bytes[i] as u32),
    ensures
        byte_hash(bytes) == hashes.last(),
    decreases bytes.len(),
{
    if bytes.len() > 0 {
        let front = bytes.drop_last();
        let some = hashes.drop_last();
        assert forall|i: int| 0 <= i < front.len() implies some[i + 1] == some[i].wrapping_mul(
            16777619,
        ) ^ (#[trigger] front[i] as u32) by {
            assert(front[i] == bytes[i]);
        }
        lemma_hashes(front, some);
        assert(bytes[bytes.len() - 1] == bytes.last());
    }
}

/// The hue of a tile: from zero on, each byte of its name is mixed into the hash
/// after a multiplication, and the degrees are what is left of it.
pub proof fn law_tile_hue(seed: &str, r: u32, bytes: Seq<u8>, hashes: Seq<u32>)
    requires
        call_ensures(tile_color, (seed,), r),
        bytes == encode_utf8(seed@),
        hashes.len() == bytes.len() + 1,
        hashes[0] == 0,
        forall|i: int|
            0 <= i < bytes.len() ==> hashes[i + 1] == hashes[i].wrapping_mul(16777619) ^ (
            #[trigger] bytes[i] as u32),
    ensures
        r == hashes.last() % 360,
{
    lemma_hashes(bytes, hashes);
}

/// An asset has the hue of its tile, and one without a tile that of its own id;
/// a tile reaches as far as it is loaded, but one at least.
pub proof fn law_asset_hue(
    info: &MapAssetDebugInfo,
    seed: &str,
    hue: u32,
    r: u32,
    load_radius: Scalar,
    reach: Scalar,
)
    requires
        call_ensures(asset_color, (info,), r),
        call_ensures(tile_color, (seed,), hue),
        info.tile_id matches Some(id) ==> seed@ == id@,
        info.tile_id is None ==> seed@ == info.instance_id@,
        call_ensures(tile_radius, (load_radius,), reach),
    ensures
        r == hue,
        lifted(load_radius, scalar(0x3f80_0000), reach),
{
}

/// The root of a mesh is the nearest entity at or above it that is one.
pub proof fn law_debug_root(
    start: u64,
    parents: &HashMap<u64, u64>,
    roots: &HashSet<u64>,
    r: Option<u64>,
    near: Option<u64>,
)
    requires
        call_ensures(find_debug_root, (start, parents, roots), r),
        call_ensures(nearest_marked, (parents, roots, start), near),
    ensures
        roots@.contains(start) ==> r == Some(start),
        r == near,
        r matches Some(e) ==> roots@.contains(e),
        !parents@.contains_key(start) && !roots@.contains(start) ==> r is None,
{
    let p = parents@;
    let m = roots@;
    assert(ancestor(p, start, 0) == Some(start));
    lemma_marked_above(p, m, start);
    if r is Some {
        let n = choose|n: nat| first_marked(p, m, start, 0, n, r->0);
        assert(ancestor(p, start, n) == Some(r->0));
        assert(!none_marked(p, m, start, 0));
    }
    if near is Some {
        let n = choose|n: nat| first_marked(p, m, start, 0, n, near->0);
        assert(ancestor(p, start, n) == Some(near->0));
        assert(!none_marked(p, m, start, 0));
    }
    if r is Some && near is Some {
        let a = choose|n: nat| first_marked(p, m, start, 0, n, r->0);
        let b = choose|n: nat| first_marked(p, m, start, 0, n, near->0);
        assert(ancestor(p, start, a) == Some(r->0));
        assert(ancestor(p, start, b) == Some(near->0));
        assert(a == b);
    }
}

/// The overlay: the input, the keys, each switch and the bounds.
pub proof fn law_map_overlay(settings: MapSettings, input: &str, b: &BoundsText, r: Option<String>)
    requires
        call_ensures(update_overlay, (settings, input, b), r),
    ensures
        r is Some <==> settings.overlay_visible,
        r matches Some(text) ==> text@ == "Map Viewer\nSoubor: "@ + input@
            + "\nG grid | M mesh | C colliders | N navmesh | T tiles | D debug | R refit | H overlay\nGrid: "@
            + (if settings.grid_visible {
            "on"@
        } else {
            "off"@
        }) + " | Mesh: "@ + (if settings.meshes_visible {
            "on"@
        } else {
            "off"@
        }) + " | Colliders: "@ + (if settings.colliders_visible {
            "on"@
        } else {
            "off"@
        }) + " | Navmesh: "@ + (if settings.navmesh_visible {
            "on"@
        } else {
            "off"@
        }) + " | Tiles: "@ + (if settings.tile_overlay_visible {
            "on"@
        } else {
            "off"@
        }) + " | Debug: "@ + (if settings.debug_visible {
            "on"@
        } else {
            "off"@
        }) + "\nBounds center: "@ + b.x@ + ", "@ + b.y@ + ", "@ + b.z@ + " | radius "@ + b.radius@,
{
}

/// The name of a stage.
pub proof fn law_stage_names(stage: Option<LoadStage>, r: &'static str)
    requires
        call_ensures(load_state_label, (stage,), r),
    ensures
        stage is None ==> r@ == "Unknown"@,
        stage matches Some(s) ==> (s is Loaded ==> r@ == "Loaded"@),
        stage matches Some(s) ==> (s is Loading ==> r@ == "Loading"@),
        stage matches Some(s) ==> (s is NotLoaded ==> r@ == "NotLoaded"@),
        stage matches Some(s) ==> (s is Failed ==> r@ == "Failed"@),
{
}

/// `line` tells of an asset of the kind `kind`.
pub open spec fn tells_asset(line: Seq<char>, kind: Seq<char>, a: TrackedAsset) -> bool {
    line == kind + " ["@ + a.info.instance_id@ + "] model='"@ + a.info.model@ + "' state="@
        + stage_name(a.stage) + " map='"@ + a.info.source_map@ + "' why="@ + a.info.reason@
        + " asset='"@ + a.info.asset_path@ + "' drawable='"@ + (match a.info.drawable_path {
        Some(p) => p@,
        None => "<none>"@,
    }) + "'"@
}

proof fn lemma_with_assets(lines: Seq<Seq<char>>, kind: Seq<char>, assets: Seq<TrackedAsset>)
    ensures
        with_assets(lines, kind, assets).len() == lines.len() + assets.len(),
        forall|i: int|
            0 <= i < lines.len() ==> #[trigger] with_assets(lines, kind, assets)[i] == lines[i],
        forall|i: int|
            0 <= i < assets.len() ==> with_assets(lines, kind, assets)[lines.len() + i]
                == asset_line(kind, #[trigger] assets[i]),
    decreases assets.len(),
{
    if assets.len() > 0 {
        let front = assets.drop_last();
        lemma_with_assets(lines, kind, front);
        assert forall|i: int| 0 <= i < assets.len() implies with_assets(lines, kind, assets)[lines.len()
            + i] == asset_line(kind, #[trigger] assets[i]) by {
            if i < front.len() {
                assert(front[i] == assets[i]);
            }
        }
    }
}

/// The debug overlay: how many assets and navigation meshes there are, each asset
/// with its state, those in the native format first, and the last two dozen
/// entries of the log.
pub proof fn law_debug_overlay(
    settings: MapSettings,
    adm: &Vec<TrackedAsset>,
    scenes: &Vec<TrackedAsset>,
    navmeshes: usize,
    log: &DebugLog,
    r: Option<String>,
    lines: Seq<Seq<char>>,
    shown: int,
)
    requires
        call_ensures(update_debug_overlay, (settings, adm, scenes, navmeshes, log), r),
        shown == (if log.entries@.len() < 24 {
            log.entries@.len() as int
        } else {
            24
        }),
        lines.len() == 7 + adm@.len() + scenes@.len() + shown,
        lines[0] == "Debug Load Info"@,
        lines[1] == "tracked assets: "@ + decimal_digits(adm@.len() + scenes@.len()),
        lines[2] == "loaded navmeshes: "@ + decimal_digits(navmeshes as nat),
        lines[3] == ""@,
        lines[4] == "Asset States:"@,
        forall|i: int|
            0 <= i < adm@.len() ==> tells_asset(lines[5 + i], "ADM"@, #[trigger] adm@[i]),
        forall|i: int|
            0 <= i < scenes@.len() ==> tells_asset(
                lines[5 + adm@.len() + i],
                "SCENE"@,
                #[trigger] scenes@[i],
            ),
        lines[5 + (adm@.len() + scenes@.len()) as int] == ""@,
        lines[6 + (adm@.len() + scenes@.len()) as int] == "Recent Log:"@,
        forall|i: int|
            log.entries@.len() - shown <= i < log.entries@.len() ==> lines[lines.len()
                - log.entries@.len() + i] == (#[trigger] log.entries@[i])@,
    ensures
        r is Some <==> settings.debug_visible,
        r matches Some(text) ==> text@ == joined(lines, "\n"@),
{
    let entries = views(log.entries@);
    assert(entries.len() == log.entries@.len());
    let all = debug_lines(adm@, scenes@, navmeshes as nat, entries);
    let head = seq![
        "Debug Load Info"@,
        "tracked assets: "@ + decimal_digits(adm@.len() + scenes@.len()),
        "loaded navmeshes: "@ + decimal_digits(navmeshes as nat),
        ""@,
        "Asset States:"@,
    ];
    let mid = with_assets(head, "ADM"@, adm@);
    lemma_with_assets(head, "ADM"@, adm@);
    lemma_with_assets(mid, "SCENE"@, scenes@);
    let top = with_assets(mid, "SCENE"@, scenes@);
    let a = adm@.len() as int;
    let s = scenes@.len() as int;
    assert(all == top.push(""@).push("Recent Log:"@) + last_lines(entries, LOG_SHOWN as nat));
    assert(all.len() == lines.len());
    assert forall|i: int| 0 <= i < all.len() implies all[i] == lines[i] by {
        if i < 5 {
            assert(top[i] == mid[i]);
            assert(mid[i] == head[i]);
        } else if i < 5 + a {
            assert(top[i] == mid[i]);
            let x = adm@[i - 5];
            assert(mid[5 + (i - 5)] == asset_line("ADM"@, x));
            assert(tells_asset(lines[5 + (i - 5)], "ADM"@, x));
        } else if i < 5 + a + s {
            let k = i - 5 - a;
            let x = scenes@[k];
            assert(top[mid.len() + k] == asset_line("SCENE"@, x));
            assert(tells_asset(lines[5 + a + k], "SCENE"@, x));
        } else if i >= 7 + a + s {
            let k = entries.len() - shown + (i - 7 - a - s);
            assert(entries[k] == log.entries@[k]@);
            assert(all[i] == last_lines(entries, LOG_SHOWN as nat)[i - 7 - a - s]);
            assert(lines[lines.len() - log.entries@.len() + k] == log.entries@[k]@);
        }
    }
    assert(all =~= lines);
}

/// Each kind of ground has its color: three by their names, one by either of two,
/// and all others share one.
pub proof fn law_surface_tones(surface: &str, r: SurfaceTone)
    requires
        call_ensures(navmesh_surface_color, (surface,), r),
    ensures
        r is Ground <==> surface@ == "ground"@,
        r is Water <==> surface@ == "water"@,
        r is Underwater <==> surface@ == "underwater"@,
        r is Climbable <==> surface@ == "climb"@ || surface@ == "climbable"@,
{
    reveal_strlit("ground");
    reveal_strlit("water");
    reveal_strlit("underwater");
    reveal_strlit("climb");
    reveal_strlit("climbable");
    assert("ground"@.len() == 6 && "water"@.len() == 5 && "underwater"@.len() == 10 && "climb"@.len()
        == 5 && "climbable"@.len() == 9);
    assert("water"@[0] == 'w' && "climb"@[0] == 'c');
}

/// One more face of a navigation mesh is drawn behind the others where the mesh
/// is shown and has all three of its corners, and is passed over else.
pub proof fn law_faces_drawn(
    visible: bool,
    faces: &Vec<Face>,
    more: &Vec<Face>,
    vertices: usize,
    drawn: Vec<Face>,
    r: Vec<Face>,
)
    requires
        call_ensures(draw_navmeshes, (visible, faces, vertices), drawn),
        call_ensures(draw_navmeshes, (visible, more, vertices), r),
        more@.len() == faces@.len() + 1,
        more@.drop_last() == faces@,
    ensures
        !visible ==> r@.len() == 0,
        faces@.len() == 0 ==> drawn@.len() == 0,
        visible && more@.last().a < vertices && more@.last().b < vertices && more@.last().c
            < vertices ==> r@ == drawn@.push(more@.last()),
        visible && !(more@.last().a < vertices && more@.last().b < vertices && more@.last().c
            < vertices) ==> r@ == drawn@,
{
}

/// A collider is drawn in its shape and its size, a mesh as a box; what the
/// collider does not say is half a metre, and three tenths for a capsule.
pub proof fn law_colliders_drawn(
    shape: CollisionShape,
    half: Option<Extent>,
    radius: Option<Scalar>,
    height: Option<Scalar>,
    r: (Outline, ShapeTone),
)
    requires
        call_ensures(draw_map_colliders, (shape, half, radius, height), r),
    ensures
        shape is Sphere <==> r.0 is Sphere,
        shape is Capsule <==> r.0 is Capsule,
        shape is Cylinder <==> r.0 is Cylinder,
        r.0 matches Outline::Sphere { radius: got } ==> (radius matches Some(x) ==> got == x) && (
        radius is None ==> got == scalar(0x3f00_0000)),
        r.0 matches Outline::Capsule { radius: got, height: tall } ==> tall == height && (
        radius matches Some(x) ==> got == x) && (radius is None ==> got == scalar(0x3e99_999a)),
        r.0 matches Outline::Cylinder { radius: got, height: tall } ==> tall == height && (
        radius matches Some(x) ==> got == x) && (radius is None ==> got == scalar(0x3f00_0000)),
        !(shape is Sphere) && !(shape is Capsule) && !(shape is Cylinder) ==> r.0 is Box,
        r.0 matches Outline::Box { half: got } ==> (half matches Some(h) ==> got == h),
        r.0 matches Outline::Box { half: got } ==> (half is None ==> got.x == scalar(0x3f00_0000)
            && got.y == scalar(0x3f00_0000) && got.z == scalar(0x3f00_0000)),
        r.1 is Navmesh <==> shape is Navmesh,
        r.1 is Mesh <==> shape is Mesh || shape is Convex,
        r.1 is Sphere <==> shape is Sphere,
        r.1 is Capsule <==> shape is Capsule,
        r.1 is Cylinder <==> shape is Cylinder,
        r.1 is Box <==> shape is Box,
{
}

/// At first all is shown but the debug overlay, the bounds are empty and so is the
/// log.
pub proof fn law_map_start(r: MapSettings, b: SceneBounds, log: DebugLog)
    requires
        call_ensures(MapSettings::default, (), r),
        call_ensures(SceneBounds::empty, (), b),
        call_ensures(DebugLog::new, (), log),
    ensures
        r.grid_visible && r.colliders_visible && r.navmesh_visible && r.tile_overlay_visible
            && r.meshes_visible && r.overlay_visible && !r.debug_visible,
        b.low is None && b.high is None,
        log.entries@.len() == 0,
{
    assert(views(log.entries@).len() == log.entries@.len());
}

} // verus!
