use std::collections::{HashMap, HashSet};

use bevy_game::drawable::{
    alpha_mode, attach_drawable_intent, build_layered_env, build_params, build_standard_pbr,
    build_vehicle_glass, hook_drawable_scenes, process_mesh_node, resolve_tex, AlphaMode,
    DrawableManifest, DrawableParams, EntityDef, MaterialDef, MaterialParams, NamedEntity, NamedMaterial, NodePlan,
    SceneNode, TextureInfo, TexturePick, TextureSlot, TextureSource,
};
use bevy_game::gameplay::visuals::DummyPrimitiveKind;
use bevy_game::native_assets::{
    asset_root, load_native_drawables, load_native_fonts, load_native_ped_physics,
    register_native_models, sync_ped_physics_registry, PedEntry, PedHandle,
};
use bevy_game::physics::{
    attach_or_update_collider_objects, attach_or_update_drawable_colliders,
    attach_or_update_dummy_colliders, attach_stairs_dummy_colliders,
    clear_generated_dummy_colliders, collider_from_dummy_def, collider_spec_from_drawable,
    dummy_collider_defaults, foot_height, locked_axes_from_drawable, BodyOwner, ColliderSpec,
    CollisionShape, DrawableCollision, DummyCollider, DummyColliderDef, DummyColliderShape,
    DummyDims, DummyPlan, Extent, Measure,
};
use bevy_game::scalar::{scalar, wide, Scalar};
use bevy_game::streaming::{
    cleanup_maps_on_exit, client_index_candidates, collect_map_files, load_maps_on_enter,
    load_single_map_file, load_world_tile_index, map_instances, map_key_for_path,
    navmesh_candidates, path_target, receive_tile_streaming_commands, resolve_stream_focus,
    stream_world_tiles, streaming_due, tile_id_for_position, tile_index_candidates, tile_updates,
    unload_single_map_file, update_client, update_npc_nav_paths, wanted_tiles_for_position,
    IndexFile, LoadedMapRecord, MapEntry, NpcGoal, PathTarget, ServerTileStreamingState,
    StreamClient, TileStreamingCommand, WorldEntry, WorldTile,
};

fn f(x: f32) -> Scalar {
    scalar(x.to_bits())
}

fn w(x: f64) -> bevy_game::scalar::Wide {
    wide(x.to_bits())
}

fn names(items: &[&str]) -> Vec<String> {
    items.iter().map(|s| s.to_string()).collect()
}

fn tile(id: &str, map: &str, radius: f32, distance: f32) -> WorldTile {
    WorldTile {
        id: id.to_string(),
        map: map.to_string(),
        load_radius: f(radius),
        always_loaded: false,
        distance: f(distance),
    }
}

fn pairs(commands: &[TileStreamingCommand]) -> Vec<(&str, &str)> {
    commands.iter().map(|c| (c.tile_id.as_str(), c.action.as_str())).collect()
}

#[test]
fn near_tiles_are_wanted() {
    let mut always = tile("c", "c.map.toml", 1.0, 9000.0);
    always.always_loaded = true;
    let tiles = vec![
        tile("a", "a.map.toml", 100.0, 100.0),
        tile(" ", "b.map.toml", 100.0, 50.0),
        always,
        tile("d", "d.map.toml", 100.0, 101.0),
        tile("e", "e.map.toml", 0.0, 0.5),
        tile("a", "a2.map.toml", 100.0, 1.0),
    ];
    assert_eq!(wanted_tiles_for_position(&tiles), names(&["a", "b.map.toml", "c", "e"]));
    assert!(streaming_due(f(1.0)) && !streaming_due(f(0.9)));
    assert_eq!(tile_id_for_position(&tiles).as_deref(), Some("e"));
    assert_eq!(tile_id_for_position(&vec![tile("d", "d", 1.0, 9.0)]), None);
}

#[test]
fn clients_are_told_changes_once() {
    let mut told = names(&["a", "b"]);
    let commands = tile_updates(&mut told, names(&["b", "c"]));
    assert_eq!(pairs(&commands), vec![("c", "load"), ("a", "unload")]);
    assert_eq!(told, names(&["b", "c"]));
    assert!(tile_updates(&mut told, names(&["b", "c"])).is_empty());
    let mut sets: HashMap<u64, Vec<String>> = HashMap::new();
    let client = StreamClient {
        client_id: Some(7),
        handshake_complete: true,
        tiles: Some(vec![tile("a", "a", 10.0, 1.0)]),
    };
    assert_eq!(pairs(&update_client(&mut sets, &client)), vec![("a", "load")]);
    assert!(update_client(&mut sets, &client).is_empty());
    let early = StreamClient { handshake_complete: false, ..client.clone() };
    assert!(update_client(&mut sets, &early).is_empty());
}

#[test]
fn clients_follow_the_server() {
    let mut state = ServerTileStreamingState::default();
    let command = |tile: &str, action: &str| TileStreamingCommand {
        tile_id: tile.to_string(),
        action: action.to_string(),
    };
    receive_tile_streaming_commands(
        &mut state,
        &vec![command("a", "load"), command("b", "load"), command("a", "unload")],
        w(50.0),
    );
    assert_eq!(state.authoritative_tiles, names(&["b"]));
    assert!(state.has_server_override);
    assert_eq!(state.last_update_secs, w(50.0));
    let tiles = vec![tile("a", "a.map", 100.0, 1.0), tile("b", "b.map", 100.0, 900.0)];
    let loaded = vec![record("maps/./a.map")];
    let fresh = stream_world_tiles("maps", &tiles, &state, w(2.0), &loaded);
    assert_eq!((fresh.load, fresh.unload), (names(&["maps/b.map"]), names(&["maps/./a.map"])));
    let stale = stream_world_tiles("maps", &tiles, &state, w(9.0), &loaded);
    assert!(stale.load.is_empty() && stale.unload.is_empty());
}

#[test]
fn maps_are_found_and_named() {
    assert_eq!(map_key_for_path("assets/maps", "assets/maps/city/a.map.toml"), "city/a.map.toml");
    assert_eq!(map_key_for_path("assets/maps", "other\\a.map"), "other/a.map");
    assert_eq!(map_key_for_path("assets/maps", "assets/mapsx/a.map"), "assets/mapsx/a.map");
    assert_eq!(map_key_for_path("assets/maps/", "assets//maps/./b.map"), "b.map");
    assert_eq!(
        navmesh_candidates("a.map.toml"),
        names(&["a.map.navmesh.toml", "a.navmesh.toml"])
    );
    assert_eq!(
        collect_map_files(&names(&["z.map", "a.map.toml", "map.toml", "x.toml", "readme"])),
        names(&["a.map.toml", "map.toml", "z.map"])
    );
    let file = |exists: bool, valid: bool, tiles: usize| IndexFile { exists, valid, tiles };
    assert_eq!(
        load_world_tile_index(&vec![file(true, false, 0), file(true, true, 0), file(true, true, 2)]),
        Some(2)
    );
    assert_eq!(load_world_tile_index(&vec![file(false, true, 2)]), None);
    let some = |s: &str| Some(s.to_string());
    assert_eq!(
        tile_index_candidates(&some("/ws/host_server"), &some("/ws"), &some("/bin")),
        names(&[
            "/ws/host_client/assets/maps/world.index.toml",
            "/ws/host_client/assets/maps/map.index.toml",
            "/ws/host_server/assets/maps/world.index.toml",
            "/ws/host_server/assets/maps/map.index.toml",
            "/bin/assets/maps/world.index.toml",
            "/bin/assets/maps/map.index.toml",
        ])
    );
    assert!(tile_index_candidates(&None, &some("/ws"), &None).is_empty());
}

#[test]
fn map_instances_are_numbered() {
    let entry = |id: &str, navmesh_only: bool| MapEntry {
        id: id.to_string(),
        model: "tree".to_string(),
        navmesh_only,
    };
    let made = map_instances("city.map.toml", &vec![entry("t1", false), entry("", true)]);
    assert_eq!(made.len(), 2);
    assert_eq!((made[0].entry_index, made[0].id.as_str()), (0, "t1"));
    assert_eq!((made[1].entry_index, made[1].navmesh_only), (1, true));
    assert!(made.iter().all(|m| m.map_file == "city.map.toml"));
}

#[test]
fn paths_are_sought_for_own_characters() {
    let handles = HashMap::from([(5u64, 50u64)]);
    let target = |owner: Option<Option<u64>>, len: usize, at: usize, goal: NpcGoal| {
        path_target(Some(1), owner, len, at, goal, &handles)
    };
    assert_eq!(target(Some(Some(1)), 0, 0, NpcGoal::Coord), Some(PathTarget::Coord));
    assert_eq!(target(Some(Some(2)), 0, 0, NpcGoal::Coord), None);
    assert_eq!(target(None, 3, 1, NpcGoal::Coord), None);
    assert_eq!(target(None, 3, 3, NpcGoal::Entity(5)), Some(PathTarget::Entity(50)));
    assert_eq!(target(None, 0, 0, NpcGoal::Entity(6)), None);
    assert_eq!(target(None, 0, 0, NpcGoal::Elsewhere), None);
}

fn part(shape: CollisionShape, is_static: bool) -> DrawableCollision {
    DrawableCollision {
        shape,
        is_static,
        half_extents: None,
        radius: None,
        height: None,
        lock_translation: None,
        lock_rotation: Some((true, false, true)),
        friction: f(0.0),
        restitution: f(0.4),
    }
}

#[test]
fn model_parts_get_colliders() {
    let half = Extent { x: f(0.5), y: f(0.5), z: f(0.5) };
    let spec = |shape, is_static, mesh| collider_spec_from_drawable(&part(shape, is_static), mesh);
    assert_eq!(spec(CollisionShape::Box, true, true), Some(ColliderSpec::Cuboid { half }));
    assert_eq!(
        spec(CollisionShape::Sphere, true, true),
        Some(ColliderSpec::Sphere { radius: f(0.5) })
    );
    assert_eq!(spec(CollisionShape::Mesh, true, true), Some(ColliderSpec::Trimesh));
    assert_eq!(spec(CollisionShape::Mesh, false, true), Some(ColliderSpec::ConvexHull));
    assert_eq!(spec(CollisionShape::Mesh, false, false), Some(ColliderSpec::Cuboid { half }));
    assert_eq!(spec(CollisionShape::Navmesh, true, true), None);
    let axes = locked_axes_from_drawable(&part(CollisionShape::Box, true)).unwrap();
    assert_eq!((axes.translation, axes.rotation), ((false, false, false), (true, false, true)));
    let parents = HashMap::from([(3u64, 2u64), (2, 1)]);
    let bodies = HashSet::from([1u64]);
    let box_part = part(CollisionShape::Box, true);
    let plan = |e: u64, skinned: bool, bodies: &HashSet<u64>| {
        attach_or_update_drawable_colliders(e, &box_part, true, skinned, &parents, bodies).unwrap()
    };
    assert_eq!(plan(3, true, &bodies).owner, BodyOwner::Above);
    assert_eq!(plan(3, true, &HashSet::new()).owner, BodyOwner::Root(1));
    assert_eq!(plan(3, false, &HashSet::new()).owner, BodyOwner::This);
    assert_eq!(plan(3, false, &bodies).friction, None);
    assert_eq!(plan(3, false, &bodies).restitution, Some(f(0.4)));
}

fn dummy(shape: DummyColliderShape) -> DummyColliderDef {
    DummyColliderDef {
        enabled: true,
        shape,
        size: Extent { x: f(0.0), y: f(2.0), z: f(0.0) },
        radius: f(0.0),
        height: f(0.0),
        is_static: true,
        is_trigger: false,
        friction: f(0.5),
        restitution: f(0.0),
        stairs: false,
        stairs_slope_invert: false,
        stairs_clearance_y: f(0.0),
    }
}

#[test]
fn plain_objects_get_colliders() {
    let size = Extent { x: f(1.0), y: f(1.0), z: f(1.0) };
    let plan = |kind, def: &DummyColliderDef| {
        attach_or_update_dummy_colliders(kind, def, size, f(3.0), f(4.0))
    };
    let auto = dummy(DummyColliderShape::Auto);
    assert_eq!(plan(DummyPrimitiveKind::Cube, &dummy(DummyColliderShape::Off)), DummyPlan::Clear);
    assert_eq!(plan(DummyPrimitiveKind::Stairs, &auto), DummyPlan::Stairs);
    assert_eq!(plan(DummyPrimitiveKind::PointLight, &auto), DummyPlan::Keep);
    match plan(DummyPrimitiveKind::Sphere, &auto) {
        DummyPlan::Attach { collider, friction, restitution, .. } => {
            assert_eq!(collider, DummyCollider::Sphere { radius: f(0.001) });
            assert_eq!((friction, restitution), (Some(f(0.5)), None));
        }
        other => panic!("{:?}", other),
    }
    let mut off = auto;
    off.enabled = false;
    assert_eq!(attach_or_update_collider_objects(&off), DummyPlan::Clear);
    assert!(collider_from_dummy_def(&auto, size, f(3.0), f(4.0)).is_some());
    assert_eq!(
        clear_generated_dummy_colliders(&vec![1, 2, 3], &HashSet::from([1, 3])),
        vec![1, 3]
    );
    assert_eq!(foot_height(Some(f(2.0))), f(2.0));
    assert_eq!(foot_height(None), f(0.0));
}

#[test]
fn standard_dimensions_stand_for_those_of_the_object() {
    let size = Extent { x: f(1.0), y: f(1.0), z: f(1.0) };
    for bits in 0.5f32.to_bits() - 5..=0.5f32.to_bits() + 5 {
        let radius = f32::from_bits(bits);
        let mut def = dummy(DummyColliderShape::Sphere);
        def.radius = scalar(bits);
        let standard = (radius - 0.5).abs() < f32::EPSILON;
        let expected = if standard { f(3.0) } else { scalar(bits) };
        assert_eq!(
            collider_from_dummy_def(&def, size, f(3.0), f(4.0)),
            Some(DummyCollider::Sphere { radius: expected })
        );
    }
    for bits in 1.0f32.to_bits() - 5..=1.0f32.to_bits() + 5 {
        let height = f32::from_bits(bits);
        let mut def = dummy(DummyColliderShape::Cylinder);
        def.radius = f(0.5);
        def.height = scalar(bits);
        let standard = (height - 1.0).abs() < f32::EPSILON;
        let expected = if standard { f(4.0) } else { scalar(bits) };
        assert_eq!(
            collider_from_dummy_def(&def, size, f(3.0), f(4.0)),
            Some(DummyCollider::Cylinder { radius: f(3.0), height: expected })
        );
    }
}

#[test]
fn stairs_get_colliders_of_their_own() {
    let dims = DummyDims {
        size: Extent { x: f(0.0), y: f(1.0), z: f(2.0) },
        radius: f(1.0),
        height: f(3.0),
    };
    let plan = attach_stairs_dummy_colliders(&dims, 0, &dummy(DummyColliderShape::Auto));
    assert_eq!((plan.width, plan.depth, plan.steps), (f(0.05), f(2.0), 1));
    let defaults = dummy_collider_defaults(DummyPrimitiveKind::Sphere, &dims);
    assert!(matches!(defaults.radius, Measure::Same(_)));
}

#[test]
fn native_files_are_registered() {
    let files = names(&["car.adm", "car.glb", "tree.gltf", "car.drawable", "notes.txt", "mono.ttf"]);
    let models: Vec<(String, String, bool)> =
        register_native_models(&files).into_iter().map(|m| (m.id, m.path, m.adm)).collect();
    assert_eq!(
        models,
        vec![
            ("car".to_string(), "models/car.adm".to_string(), true),
            ("tree".to_string(), "models/tree.gltf".to_string(), false),
        ]
    );
    assert_eq!(load_native_drawables(&files)[0].id, "car");
    assert_eq!(load_native_fonts(&files)[0].path, "fonts/mono.ttf");
    assert!(load_native_ped_physics(&files).is_empty());
    assert_eq!(asset_root(Some("/p".to_string()), Some("/bin".to_string())), "/p/assets");
    assert_eq!(asset_root(None, Some("/bin".to_string())), "/bin/assets");
    assert_eq!(asset_root(None, None), "assets");
}

#[test]
fn ped_profiles_are_registered_once() {
    let mut registry: Vec<PedEntry> = Vec::new();
    let handle = |handle: u64, model: Option<&str>| PedHandle {
        handle,
        model: model.map(|s| s.to_string()),
    };
    let handles = vec![handle(1, None), handle(2, Some("guard")), handle(3, Some("guard"))];
    sync_ped_physics_registry(&mut registry, &handles);
    assert_eq!(registry.iter().filter(|e| e.model == "guard").count(), 1);
    let before = registry.len();
    sync_ped_physics_registry(&mut registry, &handles);
    assert_eq!(registry.len(), before);
}

fn material(template: &str) -> MaterialDef {
    MaterialDef {
        template: template.to_string(),
        textures: vec![TextureSlot {
            slot: "albedo".to_string(),
            info: TextureInfo { name: "wood".to_string(), source: TextureSource::Embedded },
        }],
        params: MaterialParams { wetness: Some(f(0.5)), ..MaterialParams::default() },
    }
}

#[test]
fn opacity_modes_choose_the_alpha() {
    let mode = |s: &str| Some(s.to_string());
    let bound = Some(f(0.3));
    assert_eq!(alpha_mode(&mode("OPAQUE"), bound), Some(AlphaMode::Opaque));
    assert_eq!(alpha_mode(&mode("CLIP"), bound), Some(AlphaMode::Clip(bound)));
    assert_eq!(alpha_mode(&mode("BLEND"), bound), Some(AlphaMode::Blend));
    assert_eq!(alpha_mode(&mode("HASHED"), bound), None);
    assert_eq!(alpha_mode(&mode("clip"), bound), None);
    assert_eq!(alpha_mode(&None, bound), None);
    let mut def = material("standard_pbr");
    def.params.opacity_mode = mode("CLIP");
    def.params.alpha_threshold = bound;
    assert_eq!(build_standard_pbr(&def, &vec![]).alpha, AlphaMode::Clip(None));
    let mut mask = def.textures[0].clone();
    mask.slot = "mb".to_string();
    def.textures.push(mask);
    assert_eq!(build_standard_pbr(&def, &vec![]).alpha, AlphaMode::Clip(bound));
    assert_eq!(build_layered_env(&def, &vec![]).alpha, AlphaMode::Clip(bound));
    def.params.opacity_mode = mode("OPAQUE");
    assert_eq!(build_vehicle_glass(&def, &vec![]).alpha, AlphaMode::Opaque);
}

#[test]
fn materials_are_built() {
    let images = vec![Some("stone".to_string()), Some("wood".to_string()), None];
    let embedded = TextureInfo { name: "wood".to_string(), source: TextureSource::Embedded };
    let lost = TextureInfo { name: "gold".to_string(), source: TextureSource::Embedded };
    assert!(matches!(resolve_tex(&embedded, &images), TexturePick::Embedded(1)));
    assert!(matches!(resolve_tex(&lost, &images), TexturePick::Shared(n) if n == "gold"));
    assert_eq!(build_params(&MaterialParams::default()), DrawableParams::default());
    let params = build_params(&material("x").params);
    assert_eq!((params.weather.z, params.tiling.x), (f(0.5), f(1.0)));
    let pbr = build_standard_pbr(&material("standard_pbr"), &images);
    assert!(matches!(pbr.albedo, Some(TexturePick::Embedded(1))));
    assert!(!pbr.double_sided);
    assert_eq!(pbr.alpha, AlphaMode::Opaque);
    let glass = build_vehicle_glass(&material("vehicle_glass"), &images);
    assert!(glass.double_sided);
    assert_eq!(glass.alpha, AlphaMode::Blend);
    let layered = build_layered_env(&material("layered_env"), &images);
    assert_ne!(layered.template, pbr.template);
}

#[test]
fn scenes_are_hooked_once_ready() {
    let manifest = DrawableManifest {
        asset_name: "car".to_string(),
        version: "1".to_string(),
        materials: vec![NamedMaterial {
            name: "paint".to_string(),
            def: material("standard_pbr"),
        }],
        entities: vec![
            NamedEntity { name: "body".to_string(), def: EntityDef::MESH { cast_shadows: false } },
            NamedEntity {
                name: "hull".to_string(),
                def: EntityDef::COLLISION {
                    shape: CollisionShape::Box,
                    mass: f(1.0),
                    is_static: true,
                    friction: f(0.0),
                    restitution: f(0.0),
                    tags: vec![],
                },
            },
        ],
    };
    let node = |name: &str| SceneNode {
        name: Some(name.to_string()),
        material: Some("paint".to_string()),
        has_mesh: true,
        has_colors: false,
    };
    let nodes = vec![node("body"), node("hull"), node("wheel")];
    let images: Vec<Option<String>> = Vec::new();
    assert!(hook_drawable_scenes(&None, true, &images, &nodes).is_none());
    let some = Some(manifest.clone());
    assert!(hook_drawable_scenes(&some, false, &images, &nodes).is_none());
    let plans = hook_drawable_scenes(&some, true, &images, &nodes).unwrap();
    assert!(matches!(&plans[0], NodePlan::Mesh(m) if m.no_shadow && m.material.is_some()));
    assert!(matches!(plans[1], NodePlan::Hidden));
    let mesh = process_mesh_node(&node("body"), true, &manifest, &images);
    assert!(!mesh.no_shadow && mesh.neutral_colors);
    assert!(attach_drawable_intent("car", &names(&["bus", "car"])));
    assert!(!attach_drawable_intent("van", &names(&["bus", "car"])));
}

#[test]
fn leaving_the_world_drops_everything() {
    let mut state = ServerTileStreamingState::default();
    let load = TileStreamingCommand { tile_id: "t".to_string(), action: "load".to_string() };
    receive_tile_streaming_commands(&mut state, &vec![load], w(3.0));
    assert!(state.has_server_override);
    let mut loaded = vec![record("a.map.toml"), record("b.map.toml")];
    let dropped = cleanup_maps_on_exit(&mut state, &mut loaded);
    let paths: Vec<&str> = dropped.iter().map(|r| r.path.as_str()).collect();
    assert_eq!(paths, vec!["a.map.toml", "b.map.toml"]);
    assert!(loaded.is_empty());
    assert!(state.authoritative_tiles.is_empty());
    assert!(!state.has_server_override);
    assert_eq!(state.last_update_secs, w(0.0));
}

fn record(path: &str) -> LoadedMapRecord {
    LoadedMapRecord {
        path: path.to_string(),
        map_key: path.to_string(),
        entities: vec![1],
        handles: vec![1],
    }
}

#[test]
fn unloading_undoes_loading() {
    let entry = |id: &str| MapEntry {
        id: id.to_string(),
        model: "tree".to_string(),
        navmesh_only: false,
    };
    let entries = vec![entry("a"), entry("")];
    let mut loaded = vec![record("m/z.map")];
    let made = vec![7, 8];
    let path = "m/city/a.map";
    assert_eq!(load_single_map_file(&mut loaded, "m", path, None, &made), None);
    assert_eq!(loaded.len(), 1);
    assert_eq!(load_single_map_file(&mut loaded, "m", path, Some(&entries), &made), Some(2));
    assert_eq!(load_single_map_file(&mut loaded, "m", "m//city/a.map", Some(&entries), &made), Some(0));
    assert_eq!(load_single_map_file(&mut loaded, "m", path, None, &vec![]), Some(0));
    assert_eq!(loaded.len(), 2);
    assert_eq!(loaded[1].map_key, "city/a.map");
    assert_eq!((&loaded[1].entities, &loaded[1].handles), (&made, &made));
    let gone = unload_single_map_file(&mut loaded, "m/city/./a.map").unwrap();
    assert_eq!((gone.path.as_str(), gone.handles), (path, vec![7, 8]));
    assert_eq!(loaded.len(), 1);
    assert_eq!(loaded[0].path, "m/z.map");
    assert!(unload_single_map_file(&mut loaded, path).is_none());
}

#[test]
fn an_index_switches_streaming_on() {
    assert_eq!(
        client_index_candidates("assets/maps"),
        names(&["assets/maps/world.index.toml", "assets/maps/map.index.toml"])
    );
    let none = IndexFile { exists: false, valid: false, tiles: 0 };
    let empty = IndexFile { exists: true, valid: true, tiles: 0 };
    let good = IndexFile { exists: true, valid: true, tiles: 4 };
    let files = names(&["z.map", "readme", "a.map.toml"]);
    assert!(matches!(
        load_maps_on_enter("m", &vec![none, good], &files),
        WorldEntry::Streamed(1)
    ));
    match load_maps_on_enter("m", &vec![none, empty], &files) {
        WorldEntry::Files(paths) => assert_eq!(paths, names(&["m/a.map.toml", "m/z.map"])),
        other => panic!("{:?}", other),
    }
}

#[test]
fn paths_are_looked_for_between_tiles() {
    let here = vec![tile("a", "a", 10.0, 1.0), tile("b", "b", 10.0, 50.0)];
    let there = vec![tile("a", "a", 10.0, 50.0), tile("b", "b", 10.0, 1.0)];
    let nowhere = vec![tile("a", "a", 10.0, 50.0)];
    let target = Some(PathTarget::Coord);
    let found = update_npc_nav_paths(true, 2, target, &here, &there).unwrap();
    assert_eq!((found.start.as_str(), found.goal.as_str()), ("a", "b"));
    assert!(update_npc_nav_paths(false, 2, target, &here, &there).is_none());
    assert!(update_npc_nav_paths(true, 0, target, &here, &there).is_none());
    assert!(update_npc_nav_paths(true, 2, None, &here, &there).is_none());
    assert!(update_npc_nav_paths(true, 2, target, &nowhere, &there).is_none());
    assert!(update_npc_nav_paths(true, 2, target, &here, &nowhere).is_none());
    assert_eq!(resolve_stream_focus(Some(4), &vec![9, 4, 4]), Some(1));
    assert_eq!(resolve_stream_focus(Some(5), &vec![9, 4]), None);
    assert_eq!(resolve_stream_focus(None, &vec![9, 4]), None);
}
