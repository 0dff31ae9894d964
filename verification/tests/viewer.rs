use std::collections::{HashMap, HashSet};

use bevy_game::anim_sets::{AnimClip, AnimDictionary, AnimSet, Notify};
use bevy_game::drawable::{TextureInfo, TextureSlot, TextureSource};
use bevy_game::gameplay::animation::AnimationState;
use bevy_game::physics::{CollisionShape, Extent};
use bevy_game::scalar::{scalar, Scalar};
use bevy_game::viewer::animation::{
    update_anim_debug_overlay, AdmAnimationBrowser, AnimKeys, AnimRoot,
};
use bevy_game::viewer::loader::{
    attach_sets, canonical_bevy_path, load_ik_sidecar, load_models, load_one_model,
    model_siblings, parse_args, viewer_asset_root, window_title, IkTomlChain, InputPath,
};
use bevy_game::viewer::lod::{circle_color, LodGroup, LodViewerState};
use bevy_game::viewer::map::{
    asset_color, draw_map_colliders, draw_navmeshes, find_debug_root, handle_map_keyboard,
    load_state_label, navmesh_surface_color, tile_color, tile_radius,
    update_debug_overlay, update_overlay, BoundsText, DebugLog, Face, LoadStage,
    MapAssetDebugInfo, MapKeys, MapSettings, SceneBounds, ShapeTone, SurfaceTone, TrackedAsset,
};
use bevy_game::viewer::map_load::{
    load_requested_input, load_sidecar, load_single_map, load_world_index, navmesh_sidecar_path,
    parse_input_target, reason_to_tile_id, register_native_assets, spawn_map_instance, IndexRead,
    InstanceAsset, InstanceSource, MapInput, MapInstance, MapRead, ModelFile, SidecarRead,
    WorldTileDef,
};
use bevy_game::viewer::overlay::{
    info_ready, update_animation_overlay, update_info_overlay, ManifestInfo, ManifestState,
    MaterialInfo, ModelInfo, ParamTexts, RootInfo,
};
use bevy_game::viewer::painter::{
    ch_color, nearest_hit, paint_vertices, BrushKeys, BrushSteps, BrushTone, PaintCursor,
    PaintInput, PaintLayer, PainterKeys, VertexPainter,
};
use bevy_game::viewer::rig::{
    draw_skeleton_overlay, AdsNodeKind, BoneMark, RigKeys, RigMouse, RigNode, RigViewerState,
};
use bevy_game::viewer::settings::{
    collider_color, collider_size, draw_colliders, handle_keyboard, mesh_visibility,
    sync_mesh_visibility_for_collider_mode, update_collider_panel, ColliderInfo, ColliderSize,
    ColliderTone, MeshVisibility, OrbitMouse, OrbitState, Outline, ViewerKeys, ViewerState,
    WeatherState,
};
use bevy_game::viewer::textures::{
    adm_entries, browser_ready, export_error, export_message, gltf_entries, panel_changed,
    shorten, texture_dir, BrowserKeys, SlotUse, TextureBrowser,
};

fn f(x: f32) -> Scalar {
    scalar(x.to_bits())
}

fn point(x: f32, y: f32, z: f32) -> Extent {
    Extent { x: f(x), y: f(y), z: f(z) }
}

fn names(items: &[&str]) -> Vec<String> {
    items.iter().map(|s| s.to_string()).collect()
}

#[test]
fn long_names_are_shortened() {
    assert_eq!(shorten("sixteen_letters_"), "sixteen_letters_");
    assert_eq!(shorten("seventeen_letters"), "seventeen_lette…");
    assert_eq!(shorten("ěščřžýáíé"), "ěščřžýá…");
}

#[test]
fn textures_are_listed_with_their_slots() {
    let uses = vec![SlotUse {
        model: "car".to_string(),
        material: "paint".to_string(),
        slot: "albedo".to_string(),
        texture: "red.png".to_string(),
    }];
    let entries = gltf_entries(&vec![Some("red.png".to_string()), None], &uses);
    assert_eq!(entries[0].slot.as_deref(), Some("car/paint/albedo"));
    assert_eq!((entries[0].name.as_str(), entries[0].short.as_str()), ("red.png", "red"));
    assert_eq!((entries[1].name.as_str(), entries[1].slot.as_deref()), ("image_1", None));
    let adm = adm_entries(&names(&["b.dds", "a.dds"]), &uses);
    assert_eq!((adm[0].name.as_str(), adm[1].name.as_str()), ("a.dds", "b.dds"));
    assert!(!browser_ready(&vec![], &vec![]));
    assert!(!browser_ready(&vec![true, false], &vec![]));
    assert!(browser_ready(&vec![true], &vec![true]));
}

#[test]
fn texture_pages_scroll() {
    let mut browser = TextureBrowser::default();
    let key = |toggle, up, down, export| BrowserKeys { toggle, up, down, export };
    assert!(!browser.handle_texture_keys(key(true, false, false, true)));
    assert!(browser.rebuild_panel().is_none());
    browser.loaded = true;
    browser.entries = adm_entries(&names(&["a", "b", "c", "d", "e", "f", "g", "h", "i"]), &vec![]);
    assert!(browser.handle_texture_keys(key(true, false, false, true)));
    browser.handle_texture_keys(key(false, false, true, false));
    browser.handle_texture_keys(key(false, false, true, false));
    assert_eq!(browser.scroll, 1);
    let page = browser.rebuild_panel().unwrap();
    assert_eq!(page.title, "Textury (9)   ↑↓   T zavřít");
    assert_eq!(page.rows, vec![(2, Some(3)), (4, Some(5)), (6, Some(7)), (8, None)]);
    assert_eq!(page.position.as_deref(), Some("řada 2/2"));
    let (mut last, mut shown) = (None, 0);
    assert!(panel_changed(&mut last, &mut shown, true, 0));
    assert!(!panel_changed(&mut last, &mut shown, true, 0));
    assert!(panel_changed(&mut last, &mut shown, true, 1));
    assert_eq!(texture_dir("models", "car"), "models/car_textures");
    assert_eq!(export_message(3, &vec![]), "Exportováno 3 textur");
    assert_eq!(export_message(0, &names(&["x", "y"])), "Chyba: x; y");
    assert_eq!(export_message(2, &names(&["x"])), "2 textur, chyby: x");
    assert_eq!(export_error("car", "bad"), "car: bad");
}

fn anim_set() -> AnimSet {
    let clip = |name: &str| AnimClip {
        name: name.to_string(),
        notifies: vec![Notify { time: f(0.5), name: format!("{name}-mark") }],
    };
    AnimSet {
        clips: vec![clip("walk"), clip("run"), clip("wave")],
        dictionaries: vec![
            AnimDictionary { name: "move".to_string(), clip_names: names(&["walk", "run"]) },
            AnimDictionary { name: "social".to_string(), clip_names: names(&["wave"]) },
        ],
    }
}

fn anim_keys() -> AnimKeys {
    AnimKeys {
        prev_dict: false,
        next_dict: false,
        pause: false,
        next_clip: false,
        prev_clip: false,
        mask: None,
    }
}

fn browser() -> AdmAnimationBrowser {
    AdmAnimationBrowser {
        root: None,
        model_name: None,
        dictionaries: vec![],
        selected_dict_idx: 0,
        clips: vec![],
        selected_idx: 0,
        flags: 1,
        speed: f(1.0),
        looping: true,
        paused: false,
        notifies: vec![],
    }
}

#[test]
fn animation_browser_steps_through_clips() {
    let mut b = browser();
    let roots = vec![AnimRoot { entity: 9, model: "man".to_string(), sets: vec![anim_set()] }];
    b.sync_adm_animation_browser(&roots);
    assert_eq!((b.root, b.model_name.as_deref()), (Some(9), Some("man")));
    assert_eq!(b.dictionaries, names(&["move", "social"]));
    assert_eq!(b.clips, names(&["walk", "run"]));
    b.handle_animation_keyboard(AnimKeys { next_clip: true, ..anim_keys() });
    assert_eq!(b.selected_idx, 1);
    b.handle_animation_keyboard(AnimKeys { next_clip: true, ..anim_keys() });
    assert_eq!(b.selected_idx, 0);
    b.handle_animation_keyboard(AnimKeys { prev_clip: true, ..anim_keys() });
    assert_eq!(b.selected_idx, 1);
    b.sync_adm_animation_browser(&roots);
    assert_eq!(b.selected_idx, 1);
    b.handle_animation_keyboard(AnimKeys { pause: true, ..anim_keys() });
    let mut state = AnimationState {
        current: None,
        speed: f(0.0),
        looping: false,
        paused: false,
        blend_time: f(0.2),
        flags: 0,
    };
    b.apply_animation_browser_state(&mut state);
    assert_eq!(state.current.as_deref(), Some("run"));
    assert!(state.paused);
    b.handle_animation_keyboard(AnimKeys { next_dict: true, ..anim_keys() });
    b.sync_adm_animation_browser(&roots);
    assert_eq!((b.selected_dict_idx, b.clips.clone()), (1, names(&["wave"])));
    b.sync_adm_animation_browser(&vec![]);
    assert_eq!(b.root, None);
    assert_eq!(update_anim_debug_overlay(""), None);
}

#[test]
fn overlays_describe_models() {
    let mut b = browser();
    let text = update_animation_overlay(&b, "1.00", &vec![], &vec![]);
    assert!(!text.is_empty());
    b.sync_adm_animation_browser(&vec![AnimRoot {
        entity: 9,
        model: "man".to_string(),
        sets: vec![anim_set()],
    }]);
    let times: Vec<String> = b.notifies.iter().map(|_| "0.50".to_string()).collect();
    let root = RootInfo {
        label: "9".to_string(),
        model: "man".to_string(),
        sets: Some(1),
        clips: 3,
        dicts: 2,
    };
    let text = update_animation_overlay(&b, "1.00", &times, &vec![root]);
    assert!(text.contains("man") && text.contains("walk"));
    let params = ParamTexts {
        tiling: None,
        l0_tiling: None,
        l1_tiling: None,
        snow: None,
        dirt: None,
        wet: Some("0.5".to_string()),
        porosity: None,
        tint: None,
        opacity_mode: None,
        alpha_threshold: None,
    };
    let manifest = ManifestInfo {
        asset_name: "car_asset".to_string(),
        version: "7".to_string(),
        meshes: 2,
        collisions: 1,
        materials: vec![MaterialInfo {
            name: "paint".to_string(),
            template: "standard_pbr".to_string(),
            textures: vec![TextureSlot {
                slot: "albedo".to_string(),
                info: TextureInfo { name: "red".to_string(), source: TextureSource::Shared },
            }],
            params,
        }],
    };
    let model = |manifest: ManifestState| ModelInfo {
        stem: "car".to_string(),
        meshes: 1,
        materials: 2,
        textures: 3,
        nodes: 4,
        animations: 5,
        manifest,
    };
    let text = update_info_overlay(&vec![model(ManifestState::Loaded(manifest))]);
    for part in ["car", "car_asset", "paint", "albedo", "red", "0.5"] {
        assert!(text.contains(part), "{part} in {text}");
    }
    let missing = update_info_overlay(&vec![model(ManifestState::Missing)]);
    assert_ne!(missing, update_info_overlay(&vec![model(ManifestState::Pending)]));
    assert!(!info_ready(0, true, 0));
}

#[test]
fn rig_targets_are_picked_and_moved() {
    let mut rig = RigViewerState::default();
    let node = |entity: u64, kind, name: Option<&str>| RigNode {
        entity,
        index: entity as u32,
        kind,
        name: name.map(|s| s.to_string()),
    };
    let nodes = vec![
        node(1, AdsNodeKind::IkTarget, Some("hand_r")),
        node(2, AdsNodeKind::DeformationBone, Some("arm")),
        node(3, AdsNodeKind::IkTarget, Some("foot_l")),
    ];
    rig.sync_rig_viewer_state(&nodes);
    assert_eq!(rig.ik_targets, vec![3, 1]);
    assert_eq!(rig.ik_names, names(&["foot_l", "hand_r"]));
    let keys = |toggle_mode, next_target, right| RigKeys {
        toggle_mode,
        next_target,
        shift: false,
        left: false,
        right,
        up: false,
        down: false,
        back: false,
        forth: false,
    };
    let orders = rig.handle_rig_keyboard(keys(true, false, false));
    assert!(rig.ik_mode && orders.show_skeleton);
    assert_eq!(
        orders.status.as_deref(),
        Some("IK režim: ON\nIK prvky: 2\nSeznam: foot_l, hand_r")
    );
    let orders = rig.handle_rig_keyboard(keys(false, true, true));
    assert_eq!(rig.selected_ik, 1);
    let movement = orders.movement.unwrap();
    assert_eq!((movement.target, movement.x, movement.y, movement.z), (1, 1, 0, 0));
    let mouse = Some(RigMouse {
        distances: vec![Some(f(5.0)), Some(f(50.0))],
        depths: vec![Some(f(7.0)), None],
        pressed: true,
        just_pressed: true,
        just_released: false,
    });
    rig.handle_rig_mouse_drag(&mouse);
    assert_eq!((rig.hovered_ik, rig.selected_ik, rig.dragging_ik), (Some(0), 0, true));
    assert!(rig.update_rig_overlay(false, 3, "0.02").unwrap().contains("foot_l"));
    let mark = draw_skeleton_overlay(3, AdsNodeKind::IkTarget, None, Some(3), None).unwrap();
    assert_eq!(mark.mark, BoneMark::SelectedTarget);
    assert!(draw_skeleton_overlay(9, AdsNodeKind::Standard, None, None, None).is_none());
}

#[test]
fn forced_levels_cycle() {
    let mut lod = LodViewerState::default();
    let groups = vec![LodGroup {
        levels: 2,
        distances: names(&["10.0"]),
        active_lod: 0,
        cull_beyond_last: false,
    }];
    assert!(lod.update_lod_panel(&vec![]).is_none());
    let mut forced = Vec::new();
    for _ in 0..3 {
        lod.handle_lod_key(false, true, &groups);
        forced.push(lod.forced);
    }
    assert_eq!(forced, vec![Some(0), Some(1), None]);
    lod.forced = Some(1);
    let mut shown = groups.clone();
    shown.push(LodGroup { levels: 3, ..groups[0].clone() });
    assert_eq!(
        lod.apply_forced_lod(&mut shown),
        Some(vec![vec![false, true], vec![false, true, false]])
    );
    assert_eq!(shown.iter().map(|g| g.active_lod).collect::<Vec<_>>(), vec![255, 255]);
    let mut free = groups.clone();
    assert_eq!(LodViewerState::default().apply_forced_lod(&mut free), None);
    assert_eq!(free[0].active_lod, 0);
    assert!(lod.update_lod_panel(&groups).is_some());
    lod.handle_lod_key(true, true, &groups);
    assert_eq!(lod.forced, Some(1));
    assert_eq!(circle_color(9), 3);
}

#[test]
fn viewer_keys_flip_switches() {
    let mut state = ViewerState::default();
    let mut camera = OrbitState::default();
    let start = camera;
    let before = state;
    camera.orbit_camera(OrbitMouse {
        orbit: Some((f(1.0), f(9.0))),
        pan: None,
        scroll: f(0.0),
        zoomed: f(9.0),
    });
    assert_eq!((camera.yaw, camera.pitch), (f(1.0), f(1.5)));
    let keys = ViewerKeys {
        reset_camera: true,
        fit_camera: false,
        grid: true,
        overlay: false,
        colliders: true,
        skeleton: false,
    };
    handle_keyboard(&mut state, &mut camera, keys);
    assert_eq!(camera, start);
    assert_ne!(state.grid_visible, before.grid_visible);
    assert_ne!(state.colliders_visible, before.colliders_visible);
    assert_eq!(state.overlay_visible, before.overlay_visible);
    let mut weather = WeatherState::default();
    assert!(weather.handle_material_debug(false, false).is_none());
    for _ in 0..5 {
        assert!(weather.handle_material_debug(true, false).is_some());
    }
    assert_eq!(weather.preset_idx, WeatherState::default().preset_idx);
    let looks: Vec<f32> = (0..6)
        .map(|_| f32::from_bits(weather.handle_material_debug(false, true).unwrap().look.bits))
        .collect();
    assert_eq!(looks, vec![-1.0, -2.0, -3.0, -4.0, -5.0, 0.0]);
}

#[test]
fn colliders_are_outlined() {
    let half = point(0.5, 0.5, 0.5);
    let tone = collider_color(false, false, true);
    assert_eq!(tone, ColliderTone::Static);
    assert_eq!(collider_color(true, true, true), ColliderTone::Ladder);
    let (outline, tone) = draw_colliders(CollisionShape::Navmesh, None, None, None, tone);
    assert_eq!((outline, tone), (Outline::Mesh { half }, ColliderTone::Navmesh));
    let (outline, shape) = draw_map_colliders(CollisionShape::Convex, None, None, None);
    assert_eq!((outline, shape), (Outline::Box { half }, ShapeTone::Mesh));
    assert_eq!(
        collider_size(CollisionShape::Sphere, None, Some(f(2.0)), None),
        ColliderSize::Radius(f(2.0))
    );
    let mut last = false;
    assert!(sync_mesh_visibility_for_collider_mode(&mut last, true));
    assert!(!sync_mesh_visibility_for_collider_mode(&mut last, true));
    assert_eq!(mesh_visibility(true, Some("body")), Some(MeshVisibility::Hidden));
    let info = ColliderInfo {
        shape: CollisionShape::Box,
        material: "metal".to_string(),
        is_static: true,
        climbable: false,
        ladder: true,
        size: "1x1x1".to_string(),
        place: "0,0,0".to_string(),
        friction: f(0.5),
        restitution: f(0.0),
        mass: f(0.0),
        coefficients: "f=0.5".to_string(),
        tags: names(&["a", "b"]),
    };
    assert!(update_collider_panel(false, &vec![]).is_none());
    let text = update_collider_panel(true, &vec![info]).unwrap();
    assert!(text.contains("metal") && text.contains("1x1x1"));
}

#[test]
fn brushes_paint_what_they_reach() {
    let mut painter = VertexPainter::default();
    assert!(!painter.active);
    assert_eq!(painter.draw_paint_cursor(), PaintCursor::Off);
    let keys = |toggle, layer, fourth| PainterKeys {
        toggle,
        layer,
        first: false,
        second: false,
        third: false,
        fourth,
    };
    painter.choose_brush(keys(true, false, false));
    assert!(painter.active);
    painter.choose_brush(keys(false, true, false));
    assert_eq!(painter.layer, PaintLayer::Masks1);
    assert_eq!(PaintLayer::Masks1.next(), PaintLayer::Masks0);
    assert_eq!(ch_color(PaintLayer::Masks0, 0), BrushTone::Red);
    let brush = |bracket_left, bracket_right, arrow_up, arrow_down| BrushKeys {
        bracket_left,
        bracket_right,
        arrow_up,
        arrow_down,
    };
    let steps = BrushSteps {
        smaller: f(0.01),
        larger: f(0.52),
        larger_again: f(0.07),
        more: f(1.1),
        less: f(-0.1),
        less_again: f(0.9),
    };
    painter.step_brush(brush(true, false, true, false), steps);
    assert_eq!((painter.radius, painter.value), (f(0.05), f(1.0)));
    painter.step_brush(brush(false, true, true, true), steps);
    assert_eq!((painter.radius, painter.value), (f(0.52), f(0.9)));
    painter.step_brush(brush(true, true, false, true), steps);
    assert_eq!((painter.radius, painter.value), (f(0.07), f(0.0)));
    painter.step_brush(brush(false, true, false, false), BrushSteps { larger: f(9.0), ..steps });
    assert_eq!(painter.radius, f(5.0));
    assert_eq!(nearest_hit(&vec![None, Some(f(2.0)), Some(f(1.0))]), Some(2));
    assert_eq!(nearest_hit(&vec![None]), None);
    assert_eq!(paint_vertices(&vec![f(0.5), f(4.0), f(1.0), f(0.0)], f(1.0)), vec![0, 3]);
    let hit = Some((point(0.0, 0.0, 0.0), point(0.0, 1.0, 0.0)));
    let still = brush(false, false, false, false);
    let input = PaintInput { erase: false, painting: true, clear: false };
    let order =
        painter.painter_tick(keys(false, false, false), still, steps, hit, input).unwrap();
    assert_eq!(order.paint, Some(f(0.0)));
    assert_eq!(painter.draw_paint_cursor(), PaintCursor::OnModel);
    assert_eq!(
        painter.update_paint_status("0.00", "0.10"),
        "PAINT  bevy_masks2  ch:x  AO (1=none)  val:0.00  r:0.10    L=vrstva  1-2=kanál  [/]=radius  UP/Down↓=hodnota  Shift=erase  Del=clear  P=off"
    );
    let erase = PaintInput { erase: true, painting: true, clear: true };
    let order =
        painter.painter_tick(keys(false, false, false), still, steps, hit, erase).unwrap();
    assert_eq!((order.paint, order.clear), (Some(f(1.0)), true));
    assert!(painter.painter_tick(keys(true, false, false), still, steps, hit, erase).is_none());
    assert!(!painter.active && painter.hover.is_none());
}

#[test]
fn a_new_browser_is_empty() {
    let b = AdmAnimationBrowser::default();
    assert!(b.dictionaries.is_empty() && b.clips.is_empty() && b.notifies.is_empty());
    assert_eq!((b.root, b.selected_dict_idx, b.selected_idx), (None, 0, 0));
}

#[test]
fn arguments_name_models() {
    let args = names(&["--features", "x", "a.glb", "-v", "b.adm", "-F", "y"]);
    assert_eq!(parse_args(&args), names(&["a.glb", "b.adm"]));
    assert_eq!(window_title(&vec![]), "ADS Model Viewer");
    assert_eq!(window_title(&names(&["m/a.glb"])), "ADS Viewer — a");
    assert_eq!(window_title(&names(&["a", "b"])), "ADS Viewer — 2 modelů");
    assert_eq!(viewer_asset_root(None, None, None), "assets");
    assert_eq!(canonical_bevy_path("a\\b"), "a/b");
    let input = |path: &str| InputPath { path: path.to_string(), resolved: Some(path.to_string()) };
    let start = load_models(&vec![input("a.adm"), input("w.ads_anim")]);
    assert_eq!((start.models, start.anim_sets), (names(&["a.adm"]), names(&["w.ads_anim"])));
    let siblings = model_siblings("m/a.adm");
    assert_eq!(siblings.manifest, "m/a.drawable");
    assert_eq!(siblings.ik, "m/a.ik.toml");
    let load = load_one_model("m\\a.ADM", &vec![], &None, &None);
    assert!(load.adm && load.path == "m/a.ADM");
    let sets = attach_sets(&Some(names(&["x"])), &names(&["x", "y"]));
    assert_eq!(sets, names(&["x", "y"]));
}

#[test]
fn ik_chains_need_their_bones() {
    let chain = |name: &str, parent: &str| IkTomlChain {
        name: name.to_string(),
        enabled: true,
        parent_bone: parent.to_string(),
        ik_target: "t".to_string(),
        effector_bone: "e".to_string(),
        pole_bone: None,
    };
    let mut known = Vec::new();
    assert_eq!(load_ik_sidecar(&mut known, &vec![chain("arm", "p"), chain("leg", "")]), 1);
    assert_eq!(known.len(), 1);
    assert_eq!(known[0].name, "arm");
}

#[test]
fn map_bounds_hold_their_points() {
    let mut bounds = SceneBounds::empty();
    assert_eq!(bounds.radius(f(99.0)), f(20.0));
    bounds.include_point(point(1.0, 2.0, 3.0));
    bounds.include_transform(point(-1.0, 5.0, 0.0), point(4.0, 6.0, 1.0));
    assert_eq!(bounds.low, Some(point(-1.0, 2.0, 0.0)));
    assert_eq!(bounds.high, Some(point(4.0, 6.0, 3.0)));
    assert_eq!((bounds.radius(f(7.0)), bounds.radius(f(12.0))), (f(10.0), f(12.0)));
}

#[test]
fn map_log_keeps_the_last_entries() {
    let mut log = DebugLog::new();
    for i in 0..100 {
        log.push(format!("{i}"));
    }
    assert_eq!((log.entries.len(), log.entries[0].as_str()), (80, "20"));
    log.push_all(&names(&["x", "y"]));
    assert_eq!((log.entries.len(), log.entries[79].as_str()), (80, "y"));
}

fn info(tile: Option<&str>) -> MapAssetDebugInfo {
    MapAssetDebugInfo {
        reason: "because".to_string(),
        source_map: "m.map.toml".to_string(),
        instance_id: "tree1".to_string(),
        tile_id: tile.map(|s| s.to_string()),
        model: "tree".to_string(),
        asset_path: "models/tree.adm".to_string(),
        drawable_path: None,
    }
}

#[test]
fn tiles_have_hues() {
    let mut hash = 0u32;
    for byte in "město".bytes() {
        hash = hash.wrapping_mul(16777619) ^ byte as u32;
    }
    assert_eq!(tile_color("město"), hash % 360);
    assert_eq!(tile_color("a"), 97);
    assert_eq!(asset_color(&info(None)), tile_color("tree1"));
    assert_eq!(asset_color(&info(Some("a"))), 97);
    assert_eq!(tile_radius(f(0.0)), f(1.0));
    let parents = HashMap::from([(3u64, 2u64), (2, 1)]);
    assert_eq!(find_debug_root(3, &parents, &HashSet::from([1])), Some(1));
    assert_eq!(find_debug_root(9, &parents, &HashSet::from([1])), None);
}

#[test]
fn map_overlays_show_switches() {
    let mut settings = MapSettings::default();
    let keys = MapKeys {
        grid: true,
        colliders: false,
        navmesh: false,
        tiles: false,
        overlay: false,
        debug: true,
        meshes: true,
        refit: false,
    };
    let effect = handle_map_keyboard(&mut settings, keys);
    assert_eq!((effect.meshes, effect.refit), (Some(false), false));
    let bounds = BoundsText {
        x: "1.0".to_string(),
        y: "2.0".to_string(),
        z: "3.0".to_string(),
        radius: "10.0".to_string(),
    };
    assert_eq!(
        update_overlay(settings, "m.map.toml", &bounds).unwrap(),
        "Map Viewer\nSoubor: m.map.toml\nG grid | M mesh | C colliders | N navmesh | T tiles | D debug | R refit | H overlay\nGrid: off | Mesh: off | Colliders: on | Navmesh: on | Tiles: on | Debug: on\nBounds center: 1.0, 2.0, 3.0 | radius 10.0"
    );
    let mut log = DebugLog::new();
    for i in 0..30 {
        log.push(format!("e{i}"));
    }
    let asset = TrackedAsset { info: info(None), stage: Some(LoadStage::Loading) };
    let text = update_debug_overlay(settings, &vec![asset], &vec![], 2, &log).unwrap();
    let lines: Vec<&str> = text.split('\n').collect();
    assert_eq!(lines[1], "tracked assets: 1");
    assert_eq!(lines[2], "loaded navmeshes: 2");
    assert_eq!(
        lines[5],
        "ADM [tree1] model='tree' state=Loading map='m.map.toml' why=because asset='models/tree.adm' drawable='<none>'"
    );
    assert_eq!((lines[7], lines[8]), ("Recent Log:", "e6"));
    assert_eq!(lines.len(), 8 + 24);
    handle_map_keyboard(&mut settings, keys);
    assert_eq!(settings, MapSettings::default());
    assert!(update_debug_overlay(settings, &vec![], &vec![], 0, &log).is_none());
    assert_eq!(load_state_label(None), "Unknown");
}

#[test]
fn navmesh_faces_need_their_corners() {
    let face = |a, b, c| Face { a, b, c };
    let faces = vec![face(0, 1, 2), face(0, 1, 3), face(2, 1, 0)];
    assert_eq!(draw_navmeshes(true, &faces, 3), vec![faces[0], faces[2]]);
    assert!(draw_navmeshes(false, &faces, 3).is_empty());
    assert_eq!(navmesh_surface_color("climb"), SurfaceTone::Climbable);
    assert_eq!(navmesh_surface_color("lava"), SurfaceTone::Other);
}

#[test]
fn map_input_is_recognised() {
    assert_eq!(parse_input_target(&names(&["-v", "x.toml"]), "assets", true), "x.toml");
    assert_eq!(parse_input_target(&vec![], "assets", true), "assets/maps/world.index.toml");
    assert_eq!(parse_input_target(&vec![], "assets", false), "assets/maps/example.map.toml");
    let input = load_requested_input("assets", "maps/world.index.toml");
    assert!(matches!(input.kind, MapInput::WorldIndex));
    assert_eq!(input.path, "assets/maps/world.index.toml");
    let input = load_requested_input("assets", "/maps/city.map.toml");
    assert!(matches!(input.kind, MapInput::SingleMap));
    let input = load_requested_input("assets", "a.glb");
    assert!(matches!(&input.kind, MapInput::Unsupported(e) if e == "glb"));
    assert_eq!(input.lines[1], "unsupported input: assets/a.glb (glb)");
    let lines = register_native_assets("m", &Some(names(&["a.adm", "a.glb", "b.gltf", "a.drawable"])));
    assert_eq!(
        lines,
        names(&[
            "scanning models dir: m",
            "adm model registered: a",
            "gltf model registered: b",
            "drawable registered: a",
        ])
    );
    assert_eq!(register_native_assets("m", &None), names(&["models scan failed: m"]));
}

#[test]
fn world_indexes_schedule_tiles() {
    let tile = |id: &str, map: &str| WorldTileDef { id: id.to_string(), map: map.to_string() };
    let read = IndexRead::Tiles(vec![tile("north", "n.map.toml"), tile(" ", "s.map.toml")]);
    let (line, plans) = load_world_index("maps/world.index.toml", &read);
    assert_eq!(line, "world index loaded: maps/world.index.toml (2 tile(s))");
    assert_eq!(plans[0].line, "tile scheduled: world index tile 'north' -> maps/n.map.toml");
    assert_eq!(plans[1].reason, "world index entry -> s.map.toml");
    assert_eq!((plans[1].id.as_str(), plans[1].map.as_str()), ("s.map.toml", "maps/s.map.toml"));
    assert_eq!(reason_to_tile_id(&plans[0].reason).as_deref(), Some("north"));
    assert_eq!(reason_to_tile_id(&plans[1].reason), None);
    let (line, plans) = load_world_index("w", &IndexRead::Unreadable);
    assert_eq!((line.as_str(), plans.len()), ("failed to read world index: w", 0));
    assert_eq!(load_world_index("w", &IndexRead::Invalid).0, "invalid world index TOML: w");
}

#[test]
fn maps_place_their_instances() {
    let file = |model: &str, path: &str| ModelFile {
        model: model.to_string(),
        path: path.to_string(),
    };
    let files = vec![
        file("car", "models\\car.adm"),
        file("tree", "models/tree.v2.glb"),
        file("rock", "models/rock.obj"),
    ];
    let cached = names(&["tree"]);
    let instance = |model: &str, id: &str| MapInstance {
        model: model.to_string(),
        id: id.to_string(),
    };
    let source = InstanceSource { map: "m".to_string(), reason: "world index tile 'n'".to_string() };
    let plan = spawn_map_instance(&instance("car", ""), &source, &files, &cached);
    assert_eq!(plan.name, "map:car");
    match plan.asset {
        Some(InstanceAsset::Adm { path, info }) => {
            assert_eq!(path, "models/car.adm");
            assert_eq!(info.asset_path, "models\\car.adm");
            assert_eq!(info.drawable_path.as_deref(), Some("models/car.drawable"));
            assert_eq!((info.instance_id.as_str(), info.tile_id.as_deref()), ("car", Some("n")));
        }
        other => panic!("{:?}", other),
    }
    let plan = spawn_map_instance(&instance("tree", "t1"), &source, &files, &cached);
    assert_eq!(plan.name, "map:tree:t1");
    match plan.asset {
        Some(InstanceAsset::Scene { path, info }) => {
            assert_eq!(path, "models/tree.v2.glb#Scene0");
            assert_eq!(info.drawable_path.as_deref(), Some("models/tree.v2.drawable"));
        }
        other => panic!("{:?}", other),
    }
    let plan = spawn_map_instance(&instance("rock", ""), &source, &files, &cached);
    assert!(plan.asset.is_none());
    assert_eq!(
        plan.lines[1],
        "instance 'rock' from 'm' resolved model 'rock' but no loadable asset kind matched path 'models/rock.obj'"
    );
    let load = load_single_map(
        "maps/a.map.toml",
        &MapRead::Instances(vec![instance("none", "")]),
        &None,
        &files,
        &cached,
        &SidecarRead::Failed("bad".to_string()),
    );
    assert_eq!(
        load.lines,
        names(&[
            "map loaded: maps/a.map.toml (1 instance(s))",
            "instance 'none' from 'maps/a.map.toml' requested model 'none' but registry path was not found",
            "navmesh load failed: maps/a.navmesh.toml (bad)",
        ])
    );
    let unreadable =
        load_single_map("x", &MapRead::Unreadable, &None, &files, &cached, &SidecarRead::Loaded);
    assert_eq!(unreadable.lines, names(&["failed to read map: x"]));
    assert_eq!(navmesh_sidecar_path("a/b.toml"), None);
    assert_eq!(load_sidecar("a/b.toml", &SidecarRead::Loaded), "no navmesh sidecar for map: a/b.toml");
}
