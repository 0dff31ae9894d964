use std::collections::{HashMap, HashSet};

use bevy_game::gameplay::animation::{
    apply_lua_animation_state, extract_gltf_clip_names, model_format, model_handle_source,
    parse_animation_index, resolve_animation_graph, retain_models,
    update_model_animation_registry, update_player_state_driven_animations, AnimFrame,
    AnimationState, AutoPlayerAnimMemory, GraphKey, GraphSource, HandleSource, LoadedModel,
    LocomotionState, ModelFormat, PaceLimits, PedAnimations, PlayerAnimState,
};
use bevy_game::gameplay::bridge::{
    handle_engine_cmds, sync_replicated_entity_handles, update_connection_bridge,
    update_input_bridge, ButtonFrame, KeyFrame,
};
use bevy_game::gameplay::camera::{
    apply_cursor_mode, clamp_pitch, compose_view, fov_target, head_bob_aim, head_bob_frequency,
    look_moves, ray_meets_ground, shake_shows, target_lean, toggle_camera_mode,
    update_camera_follow, CameraAttachment, CameraPlace, CameraScene, ViewCompose,
};
use bevy_game::gameplay::environment::{
    apply_environment_light, count_volumetric, fog_bounds, fog_report_due, EnvironmentLightConfig,
    StreamingEdge, SunChange, SunState, VolumetricChange,
};
use bevy_game::gameplay::movement::{
    apply_player_movement, collect_actions, collect_and_send_input, get_ground_normal,
    has_ground_contact, has_ground_contact_with_state, next_tick, post_physics_vel_y_damp, raw_move_input,
    DirectionKey, Drive, Flat, FovTarget, Gait, GroundHit, MoveKeys, MovementFrame,
    MovementGroundState, PlayerMovementState,
};
use bevy_game::gameplay::npc::{
    agent_change, attached_sets, drive_npc_animations, initial_clip, is_owned,
    root_is_blocking_other, sends_transform, sync_npc_net_transform, terrain_snap_owned_npcs,
    update_owned_npc_avoidance, AgentChange, Ahead, NpcProfile, Side,
};
use bevy_game::gameplay::players::{
    find_player, local_players, resolve_character_ped, resolve_default_ped_profile,
    resolve_ped_profile_for_model, PedProfile,
};
use bevy_game::gameplay::stairs::{
    apply_leg_ik, knee_guides, left_leg, local_legs, publish_stairs_state_to_lua, record_feet,
    shin_turn, snap_feet, snap_velocity, thigh_turn, AdaptiveIkSampleCache, Below,
    FootIkBoneState, FootProbe, LegFrame, LegStep, ModelRoot, SnapFeet,
};
use bevy_game::gameplay::visuals::{
    asset_path, attach_mesh_to_dummy_objects, attach_player_model_to_new_players, attaches_model,
    capsule_body, local_object_source, player_capsule, prefer_predicted_player_visuals,
    sync_net_transform_to_render, update_crosshair_entity, DummyMesh, DummyObject,
    DummyPrimitiveKind, FogVolume, ModelSource, RuntimeLightKind,
};
use bevy_game::gameplay::weapons::{
    active_weapon, apply_weapon_recoil, fired, init_weapon_feel_components, spawn_muzzle_flash,
    RecoilPattern, SpreadDef, SpreadSums, SwayStep,
};
use bevy_game::input::{KeyCode, MouseButton};
use bevy_game::nui::NuiFocusState;
use bevy_game::scalar::{scalar, Rgba, Scalar};
use bevy_game::startup::AppState;

fn f(x: f32) -> Scalar {
    scalar(x.to_bits())
}

fn flat(x: f32, z: f32) -> Flat {
    Flat { x: f(x), z: f(z) }
}

fn still() -> PlayerMovementState {
    PlayerMovementState {
        velocity_xz: flat(0.0, 0.0),
        is_sprinting: false,
        is_crouching: false,
        is_sliding: false,
        slide_timer: f(0.0),
        slide_dir: flat(0.0, 0.0),
        dodge_timer: f(0.0),
        dodge_dir: flat(0.0, 0.0),
        dodge_cooldown: f(0.0),
        last_dir_press_time: [f(0.0); 4],
        dir_was_pressed: [false; 4],
        ground_contact: true,
    }
}

fn quiet() -> MovementFrame {
    let key = DirectionKey {
        just_pressed: false,
        pressed: false,
        since_last: f(5.0),
        dir_len_sq: f(1.0),
        dir_unit: flat(0.0, 1.0),
    };
    MovementFrame {
        now: f(5.0),
        raw_grounded: true,
        since_grounded: f(0.0),
        vel_y: f(0.0),
        rest_vel_y: f(-0.16),
        fall_vel_y: f(-0.2),
        jump_just: false,
        jump_impulse: f(6.0),
        double_jump: false,
        grounded_vel_threshold: f(0.25),
        dodge_cooldown_after: f(-0.016),
        dodge_timer_after: f(-0.016),
        keys: [key; 4],
        input_len_sq: f(0.0),
        world_dir: flat(1.0, 0.0),
        sprint_held: false,
        crouch_held: false,
        crouch_just: false,
        speed_xz: f(0.0),
        travel_dir: flat(0.0, 1.0),
        half_run_speed: f(2.5),
        ground_normal_y: f(1.0),
    }
}

#[test]
fn standing_players_walk_nowhere() {
    let mut ground = MovementGroundState { last_grounded_time: f(1.0) };
    let mut mv = still();
    let out = apply_player_movement(&mut ground, &mut mv, &quiet());
    assert_eq!(ground.last_grounded_time, f(5.0));
    assert!(out.grounded && !out.jumped && !out.dodged && !out.slide_started);
    assert_eq!(
        out.drive,
        Drive::Walk { gait: Gait::Run, moving: false, project: false, vertical: false }
    );
    assert_eq!(out.fov, FovTarget::Default);
    assert_eq!(out.vel_y, f(0.0));
}

#[test]
fn jumps_need_ground_or_the_grace_period() {
    let mut ground = MovementGroundState { last_grounded_time: f(4.9) };
    let mut mv = still();
    mv.is_sliding = true;
    mv.slide_timer = f(0.5);
    let mut frame = quiet();
    frame.raw_grounded = false;
    frame.jump_just = true;
    frame.since_grounded = f(0.1);
    let out = apply_player_movement(&mut ground, &mut mv, &frame);
    assert!(out.jumped && out.vel_y == f(6.0));
    assert!(!mv.is_sliding && mv.slide_timer == f(0.0));
    assert_eq!(ground.last_grounded_time, f(4.9));
    frame.since_grounded = f(0.2);
    let out = apply_player_movement(&mut ground, &mut mv, &frame);
    assert!(!out.jumped && out.vel_y == f(-0.2));
    frame.double_jump = true;
    assert!(apply_player_movement(&mut ground, &mut mv, &frame).jumped);
}

#[test]
fn double_taps_dodge_once_per_cooldown() {
    let mut ground = MovementGroundState { last_grounded_time: f(5.0) };
    let mut mv = still();
    let mut frame = quiet();
    frame.input_len_sq = f(1.0);
    frame.keys[2].just_pressed = true;
    frame.keys[2].pressed = true;
    frame.keys[2].since_last = f(0.2);
    frame.keys[2].dir_unit = flat(-1.0, 0.0);
    let out = apply_player_movement(&mut ground, &mut mv, &frame);
    assert!(!out.dodged);
    assert_eq!(mv.last_dir_press_time[2], f(5.0));
    assert!(mv.dir_was_pressed[2]);
    let out = apply_player_movement(&mut ground, &mut mv, &frame);
    assert!(out.dodged && out.drive == Drive::Dodge);
    assert_eq!(mv.dodge_dir, flat(-1.0, 0.0));
    assert_eq!((mv.dodge_timer, mv.dodge_cooldown), (f(0.2), f(1.5)));
    frame.dodge_timer_after = f(-0.1);
    frame.dodge_cooldown_after = f(1.2);
    assert!(!apply_player_movement(&mut ground, &mut mv, &frame).dodged);
    assert_eq!(mv.dodge_cooldown, f(1.2));
}

#[test]
fn sprint_and_crouch_slide() {
    let mut ground = MovementGroundState { last_grounded_time: f(5.0) };
    let mut mv = still();
    let mut frame = quiet();
    frame.sprint_held = true;
    frame.crouch_just = true;
    frame.crouch_held = true;
    frame.speed_xz = f(2.0);
    assert!(!apply_player_movement(&mut ground, &mut mv, &frame).slide_started);
    assert!(mv.is_crouching && !mv.is_sprinting);
    frame.speed_xz = f(8.0);
    let out = apply_player_movement(&mut ground, &mut mv, &frame);
    assert!(out.slide_started && out.drive == Drive::Slide && out.fov == FovTarget::Slide);
    assert_eq!((mv.slide_dir, mv.slide_timer), (flat(0.0, 1.0), f(0.8)));
    assert!(mv.is_sliding && mv.is_crouching && !mv.is_sprinting);
    mv.slide_timer = f(0.0);
    frame.crouch_just = false;
    frame.crouch_held = false;
    let out = apply_player_movement(&mut ground, &mut mv, &frame);
    assert!(!mv.is_sliding && mv.is_sprinting && out.fov == FovTarget::Sprint);
}

#[test]
fn ground_contact_has_slack() {
    let hit = |up: f32, distance: f32| GroundHit { up: f(up), distance: f(distance) };
    assert!(has_ground_contact(&vec![hit(1.0, 0.05)]));
    assert!(!has_ground_contact(&vec![]));
    assert!(!has_ground_contact_with_state(&vec![hit(1.0, 0.09)], false));
    assert!(has_ground_contact_with_state(&vec![hit(1.0, 0.09)], true));
    assert!(!has_ground_contact_with_state(&vec![hit(0.5, 0.01)], true));
    assert_eq!(get_ground_normal(&vec![]), None);
    assert_eq!(get_ground_normal(&vec![hit(0.7, 0.01), hit(0.9, 0.01)]), Some(1));
}

#[test]
fn bounces_on_flat_ground_are_damped() {
    let mut ground = MovementGroundState { last_grounded_time: f(5.0) };
    let hits = vec![GroundHit { up: f(1.0), distance: f(0.01) }];
    let mut damp = |vel: f32, normal: f32| {
        post_physics_vel_y_damp(&mut ground, &hits, f(6.0), f(1.0), f(normal), f(vel), f(5.4))
    };
    assert_eq!(damp(1.0, 1.0), f(0.0));
    assert_eq!(damp(0.04, 1.0), f(0.04));
    assert_eq!(damp(5.9, 1.0), f(5.9));
    assert_eq!(damp(1.0, 0.9), f(1.0));
}

#[test]
fn input_is_packed() {
    let keys = MoveKeys { forward: true, backward: false, left: true, right: false };
    let opposite = MoveKeys { forward: true, backward: true, left: false, right: true };
    assert_eq!(raw_move_input(keys).1, 1);
    assert_eq!(raw_move_input(keys).0, -raw_move_input(opposite).0);
    assert_eq!(raw_move_input(opposite).1, 0);
    assert_eq!(collect_actions(&vec![(true, 1), (false, 2), (true, 8)]), 9);
    assert_eq!(next_tick(7), 8);
    assert_eq!(next_tick(u32::MAX), 0);
}

#[test]
fn a_page_with_the_keys_silences_input() {
    let keys = MoveKeys { forward: true, backward: false, left: false, right: true };
    let actions = vec![(true, 4), (false, 8), (true, 1)];
    let mut tick = 6;
    let sent = collect_and_send_input(keys, &actions, NuiFocusState::default(), &mut tick);
    assert_eq!((sent.x, sent.y, sent.actions, sent.client_tick, tick), (-1, 1, 5, 7, 7));
    let page = NuiFocusState { has_focus: true, has_cursor: true };
    let sent = collect_and_send_input(keys, &actions, page, &mut tick);
    assert_eq!((sent.x, sent.y, sent.actions, sent.client_tick, tick), (0, 0, 0, 8, 8));
}

fn clips() -> PedAnimations {
    PedAnimations {
        idle: "idle".to_string(),
        walk: "walk".to_string(),
        run: "run".to_string(),
        sprint: "sprint".to_string(),
        jump_loop: "jump".to_string(),
        fall_loop: "fall".to_string(),
        land: "land".to_string(),
    }
}

fn anim_frame() -> AnimFrame {
    AnimFrame {
        now: f(10.0),
        airborne_for: f(0.0),
        vel_y: f(0.0),
        land_deadline: f(10.18),
        filtered_next: f(0.0),
        intent_deadline: f(10.22),
        is_local_player: true,
        has_move_input: false,
        limits: PaceLimits {
            idle: f(0.1),
            idle_exit: f(0.16),
            walk_up: f(3.0),
            walk_down: f(2.7),
            sprint_up: f(7.0),
            sprint_down: f(6.6),
        },
    }
}

fn ground_below() -> Vec<GroundHit> {
    vec![GroundHit { up: f(1.0), distance: f(0.0) }]
}

#[test]
fn animations_follow_the_pace() {
    let mut memory = AutoPlayerAnimMemory::default();
    let mut frame = anim_frame();
    let d = update_player_state_driven_animations(
        &mut memory, &frame, &ground_below(), &clips(), None,
    )
    .unwrap();
    assert_eq!(d.state, PlayerAnimState::Idle);
    assert_eq!(d.animation.current.as_deref(), Some("idle"));
    assert!(d.animation.looping && d.animation.speed == f(1.0));
    frame.has_move_input = true;
    frame.filtered_next = f(5.0);
    for expected in [PlayerAnimState::Walk, PlayerAnimState::Run, PlayerAnimState::Run] {
        let d = update_player_state_driven_animations(
            &mut memory, &frame, &ground_below(), &clips(), None,
        )
        .unwrap();
        assert_eq!(d.state, expected);
    }
    frame.filtered_next = f(7.5);
    let d = update_player_state_driven_animations(
        &mut memory, &frame, &ground_below(), &clips(), None,
    )
    .unwrap();
    assert_eq!((d.state, memory.locomotion), (PlayerAnimState::Sprint, LocomotionState::Sprint));
    assert_eq!(d.state.as_str(), "sprint");
}

#[test]
fn animations_fall_and_land() {
    let mut memory = AutoPlayerAnimMemory::default();
    let mut frame = anim_frame();
    update_player_state_driven_animations(&mut memory, &frame, &ground_below(), &clips(), None);
    frame.vel_y = f(-3.0);
    update_player_state_driven_animations(&mut memory, &frame, &vec![], &clips(), None);
    assert!(memory.airborne && memory.was_grounded);
    frame.airborne_for = f(1.0);
    let d = update_player_state_driven_animations(&mut memory, &frame, &vec![], &clips(), None)
        .unwrap();
    assert_eq!((d.state, d.grounded), (PlayerAnimState::Fall, false));
    frame.vel_y = f(2.0);
    let d = update_player_state_driven_animations(&mut memory, &frame, &vec![], &clips(), None)
        .unwrap();
    assert_eq!(d.state, PlayerAnimState::Jump);
    frame.vel_y = f(-3.0);
    let d = update_player_state_driven_animations(
        &mut memory, &frame, &ground_below(), &clips(), None,
    )
    .unwrap();
    assert_eq!(d.state, PlayerAnimState::Land);
    assert!(!d.animation.looping);
    let mut silent = clips();
    silent.land = String::new();
    assert!(update_player_state_driven_animations(
        &mut memory, &frame, &ground_below(), &silent, None
    )
    .is_none());
}

#[test]
fn clips_are_selected_by_number() {
    assert_eq!(parse_animation_index("clip:4"), Some(4));
    assert_eq!(parse_animation_index("4"), Some(4));
    assert_eq!(parse_animation_index("walk"), None);
    let names = extract_gltf_clip_names(&vec![Some("walk".to_string()), None]);
    assert_eq!(names, vec!["walk".to_string(), "clip:1".to_string()]);
    assert_eq!(parse_animation_index(&names[1]), Some(1));
}

#[test]
fn model_files_have_formats() {
    assert!(matches!(model_format("models/a.adm"), ModelFormat::Adm));
    assert!(matches!(model_format("models/a.glb"), ModelFormat::Gltf));
    assert!(matches!(model_format("models/a.obj"), ModelFormat::Other));
    assert!(update_model_animation_registry("a.adm", &LoadedModel::Pending).is_none());
    let gltf = LoadedModel::Gltf(vec![Some("x".to_string())]);
    assert_eq!(update_model_animation_registry("a.glb", &gltf).unwrap().clips.len(), 1);
    assert!(matches!(model_handle_source("a.glb", true, true), HandleSource::Native));
    assert!(matches!(model_handle_source("a.glb", false, true), HandleSource::Discovered));
    assert!(matches!(model_handle_source("a.glb", false, false), HandleSource::Load(_)));
    let names = |v: &[&str]| v.iter().map(|s| s.to_string()).collect::<Vec<String>>();
    assert_eq!(retain_models(&names(&["a", "b", "c"]), &names(&["c", "a"])), names(&["a", "c"]));
}

#[test]
fn animation_graphs_are_made_once() {
    let made = vec![GraphKey { model: "car".to_string(), clip: 1 }];
    let path = Some("models/car.glb".to_string());
    assert!(matches!(resolve_animation_graph("car", "clip:1", &made, &path), GraphSource::Cached(0)));
    assert!(matches!(
        resolve_animation_graph("car", "clip:2", &made, &path),
        GraphSource::Make { clip: 2, .. }
    ));
    assert!(matches!(resolve_animation_graph("car", "walk", &made, &path), GraphSource::Unavailable));
    assert!(matches!(resolve_animation_graph("car", "clip:2", &made, &None), GraphSource::Unavailable));
    let state = AnimationState {
        current: Some("clip:1".to_string()),
        speed: f(2.0),
        looping: true,
        paused: false,
        blend_time: f(0.0),
        flags: 1,
    };
    let orders = apply_lua_animation_state(&state, Some(false)).unwrap();
    assert!(orders.take_graph && orders.repeat && orders.speed == f(2.0) && !orders.paused);
    assert!(!apply_lua_animation_state(&state, Some(true)).unwrap().take_graph);
}

#[test]
fn scripts_see_the_connection_and_the_input() {
    let c = update_connection_bridge("1.2.3.4:5", Some(9));
    assert_eq!((c.connected, c.server_addr.as_str(), c.client_id), (true, "1.2.3.4:5", 9));
    assert_eq!(update_connection_bridge("x", None).client_id, 0);
    let keys = KeyFrame {
        pressed: vec![KeyCode::KeyW, KeyCode::ShiftLeft],
        just_pressed: vec![],
        just_released: vec![KeyCode::Escape],
    };
    let mouse = ButtonFrame {
        pressed: vec![MouseButton::Other(7)],
        just_pressed: vec![],
        just_released: vec![],
    };
    let s = update_input_bridge(&keys, &mouse, Some((f(3.0), f(4.0))));
    assert_eq!(s.pressed, vec!["w".to_string(), "lshift".to_string()]);
    assert_eq!(s.just_released, vec!["escape".to_string()]);
    assert_eq!(s.mouse_pressed, vec!["mouse7".to_string()]);
    assert_eq!((s.cursor_x, s.cursor_y), (f(3.0), f(4.0)));
    let quit = handle_engine_cmds(true, true);
    assert_eq!((quit.next_state, quit.exit), (Some(AppState::Lobby), true));
    assert_eq!(handle_engine_cmds(false, false).next_state, None);
    let mut known = HashMap::from([(1u64, 10u64)]);
    sync_replicated_entity_handles(&mut known, &vec![(1, 99), (2, 20)]);
    assert_eq!(known.get(&2), Some(&20));
}

#[test]
fn cameras_follow_rigs_before_players() {
    let handles = HashMap::from([(7u64, 70u64)]);
    let placed = HashSet::from([70u64, 71]);
    let children = HashMap::from([(70u64, vec![71u64])]);
    let names = HashMap::from([(71u64, "head".to_string())]);
    let players = vec![5u64, 6];
    let place = |rig: Option<CameraAttachment>, local: Option<u64>, first: bool| {
        update_camera_follow(&CameraScene {
            rig,
            handles: &handles,
            placed: &placed,
            children: &children,
            names: &names,
            local_client: local,
            players: &players,
            first_person: first,
        })
    };
    assert_eq!(place(None, Some(6), true), CameraPlace::FirstPerson(1));
    assert_eq!(place(None, Some(5), false), CameraPlace::ThirdPerson(0));
    assert_eq!(place(None, Some(9), false), CameraPlace::Keep);
    assert_eq!(place(None, None, false), CameraPlace::Keep);
    let entity = |handle: u64, look_at: bool| Some(CameraAttachment::Entity { handle, look_at });
    assert_eq!(place(entity(7, true), Some(5), true), CameraPlace::BesideLookAt(70));
    assert_eq!(place(entity(8, true), Some(5), true), CameraPlace::Keep);
    let bone = |bone: &str| Some(CameraAttachment::Bone { handle: 7, bone: bone.to_string() });
    assert_eq!(place(bone("head"), None, true), CameraPlace::OnBone(71));
    assert_eq!(place(bone("tail"), None, true), CameraPlace::Keep);
    let fixed = Some(CameraAttachment::Position { look_at: false });
    assert_eq!(place(fixed, Some(5), true), CameraPlace::FixedAhead);
}

#[test]
fn cameras_lean_shake_and_bob() {
    let mode = apply_cursor_mode(true, NuiFocusState::default(), true);
    assert!(mode.visible && !mode.locked);
    assert!(apply_cursor_mode(false, NuiFocusState::default(), true).locked);
    let page = NuiFocusState { has_focus: true, has_cursor: false };
    assert!(!apply_cursor_mode(false, page, true).locked);
    assert!(apply_cursor_mode(false, page, true).visible);
    assert!(toggle_camera_mode(false, true));
    assert!(!look_moves(true, f(0.0), f(-0.0)));
    assert!(look_moves(true, f(0.0), f(1.0)));
    assert!(!look_moves(false, f(1.0), f(1.0)));
    assert_eq!(clamp_pitch(f(2.0)), f(1.25));
    assert_eq!(clamp_pitch(f(-2.0)), f(-1.25));
    assert_eq!(target_lean(true, false), f(-0.1396));
    assert_eq!(target_lean(true, true), f(0.0));
    assert!(ray_meets_ground(f(-0.5), f(3.0)));
    assert!(!ray_meets_ground(f(0.00001), f(3.0)));
    assert!(!ray_meets_ground(f(0.5), f(-3.0)));
    assert!(shake_shows(f(0.01)) && !shake_shows(f(0.00001)));
    assert_eq!(head_bob_aim(f(1.0), f(0.0)).amplitude, f(0.045));
    assert_eq!(head_bob_aim(f(0.4), f(0.01)).rate, f(3.0));
    assert_eq!(head_bob_frequency(f(0.0001), f(9.0)), None);
    assert_eq!(head_bob_frequency(f(0.04), f(0.0)), Some(f(9.0)));
    assert_eq!(compose_view(false, true, f(0.0), f(0.0)), ViewCompose::FromLook);
    assert_eq!(compose_view(true, true, f(0.1), f(0.0)), ViewCompose::OnTop);
    assert_eq!(compose_view(false, false, f(0.0), f(0.0)), ViewCompose::Keep);
    assert_eq!(fov_target(true, f(0.7), f(1.3)), f(0.7));
}

fn white() -> Rgba {
    Rgba { r: f(1.0), g: f(1.0), b: f(1.0), a: f(1.0) }
}

fn environment() -> EnvironmentLightConfig {
    EnvironmentLightConfig {
        enabled: true,
        color: Rgba { r: f(2.0), g: f(-1.0), b: f(0.5), a: f(1.0) },
        illuminance: f(-5.0),
        shadows_enabled: true,
        max_elevation_deg: f(120.0),
        ambient_enabled: true,
        ambient_color: white(),
        ambient_brightness: f(80.0),
        fog_enabled: true,
        fog_color: white(),
        fog_directional_light_color: white(),
        fog_directional_light_exponent: f(-1.0),
        fog_start: f(-3.0),
        fog_end: f(-9.0),
        fog_follow_streaming_boundary: true,
        fog_boundary_inner_distance: f(100.0),
        fog_boundary_outer_distance: f(50.0),
        volumetric_fog_enabled: true,
        volumetric_fog_ambient_color: white(),
        volumetric_fog_ambient_intensity: f(0.1),
        volumetric_fog_jitter: f(-0.5),
        volumetric_fog_step_count: 0,
    }
}

#[test]
fn light_and_fog_stay_within_bounds() {
    let c = environment();
    let plan = apply_environment_light(&c, None, SunState { count: 0, volumetric: false });
    assert_eq!(plan.sun, SunChange::Spawn { volumetric: true });
    assert_eq!(plan.sun_color, Rgba { r: f(1.0), g: f(0.0), b: f(0.5), a: f(1.0) });
    assert_eq!(plan.sun_illuminance, f(0.0));
    assert_eq!(plan.max_elevation_deg, f(89.0));
    let fog = plan.fog.unwrap();
    assert_eq!((fog.range.start, fog.range.end), (f(0.0), f(0.0)));
    let volumetric = plan.volumetric.unwrap();
    assert_eq!((volumetric.jitter, volumetric.step_count), (f(0.0), 1));
    let edge = Some(StreamingEdge { active: true, inner: f(1100.0), outer: f(1250.0) });
    assert_eq!(fog_bounds(&c, edge).end, f(1250.0));
    let one = apply_environment_light(&c, None, SunState { count: 1, volumetric: true });
    assert_eq!(one.sun, SunChange::Update(VolumetricChange::Keep));
    let mut off = environment();
    off.enabled = false;
    off.ambient_enabled = false;
    off.fog_enabled = false;
    let plan = apply_environment_light(&off, None, SunState { count: 3, volumetric: false });
    assert_eq!(plan.sun, SunChange::Despawn);
    assert_eq!(plan.ambient_brightness, f(0.0));
    assert!(plan.fog.is_none());
    assert!(fog_report_due(f(0.5)) && !fog_report_due(f(0.4)));
    assert_eq!(count_volumetric(&vec![true, false, true]), 2);
}

#[test]
fn characters_have_owners() {
    assert!(is_owned(Some(1), Some(1)));
    assert!(!is_owned(None, None));
    assert_eq!(agent_change(Some(1), Some(1), false), AgentChange::Create);
    assert_eq!(agent_change(Some(1), None, true), AgentChange::Remove);
    assert_eq!(agent_change(None, None, true), AgentChange::Keep);
    assert!(sends_transform(Some(1), Some(1), f(0.0), f(1.0), f(2.0)));
    assert!(!sends_transform(Some(1), Some(1), f(f32::NAN), f(1.0), f(2.0)));
    assert_eq!(sync_npc_net_transform(Some(1), Some(1), f(3.0), None, f(0.0)), None);
    assert_eq!(
        sync_npc_net_transform(Some(1), Some(2), f(3.0), Some(f(3.5)), f(0.5)),
        Some(f(3.5))
    );
    assert_eq!(
        sync_npc_net_transform(Some(1), Some(2), f(3.0), Some(f(90.0)), f(87.0)),
        Some(f(3.0))
    );
    assert_eq!(
        terrain_snap_owned_npcs(Some(1), Some(1), f(3.0), Some(f(2.0)), f(-1.0)),
        Some(f(2.0))
    );
    assert_eq!(
        terrain_snap_owned_npcs(Some(1), Some(1), f(3.0), Some(f(3.0)), f(0.0)),
        Some(f(3.0))
    );
}

#[test]
fn characters_step_aside() {
    let parents = HashMap::from([(11u64, 10u64), (21, 20)]);
    let players = HashSet::from([20u64]);
    let npcs = HashSet::from([30u64]);
    let blocks = |e: u64| root_is_blocking_other(e, 10, &players, &npcs, &parents);
    assert!(!blocks(11));
    assert!(!blocks(21));
    assert!(blocks(30) && blocks(99));
    let ahead = Ahead {
        owned: true,
        idle: false,
        forward_len_sq: f(1.0),
        blocked: true,
        left_blocked: true,
        right_blocked: false,
        current_right: f(-1.0),
    };
    assert_eq!(update_owned_npc_avoidance(ahead), Some(Side::Right));
    assert_eq!(
        update_owned_npc_avoidance(Ahead { right_blocked: true, ..ahead }),
        Some(Side::Left)
    );
    assert_eq!(update_owned_npc_avoidance(Ahead { idle: true, ..ahead }), None);
    assert_eq!(update_owned_npc_avoidance(Ahead { blocked: false, ..ahead }), None);
}

#[test]
fn characters_play_their_pace() {
    let mut pace: u8 = 0;
    let ped = Some(NpcProfile {
        idle_threshold: f(0.1),
        run_threshold: f(4.0),
        animations: clips(),
    });
    let mut step = |speed: f32| drive_npc_animations(&mut pace, f(speed), &ped);
    assert_eq!(step(0.05), None);
    assert_eq!(step(1.0).as_deref(), Some("walk"));
    assert_eq!(step(1.5), None);
    assert_eq!(step(3.5), None);
    assert_eq!(step(5.0).as_deref(), Some("run"));
    let mut usual: u8 = 0;
    assert_eq!(drive_npc_animations(&mut usual, f(0.1), &None), None);
    assert_eq!(drive_npc_animations(&mut usual, f(3.0), &None).as_deref(), Some("clip:0"));
    assert_eq!(usual, 2);
    assert_eq!(initial_clip(&None), "clip:0");
    let sets = |s: &str| Some(vec![s.to_string()]);
    assert_eq!(attached_sets(None, sets("o"), sets("p")), vec!["o".to_string()]);
}

#[test]
fn players_have_profiles() {
    assert_eq!(find_player(&vec![4, 5, 5], 5), Some(1));
    assert_eq!(find_player(&vec![4], 9), None);
    assert_eq!(local_players(Some(5), &vec![4, 5, 5]), vec![1, 2]);
    assert!(local_players(Some(9), &vec![4]).is_empty());
    assert!(local_players(None, &vec![4]).is_empty());
    let ped = |key: &str, model: &str, loaded: bool| PedProfile {
        key: key.to_string(),
        model: model.to_string(),
        loaded,
    };
    let peds = vec![ped("npc", "guard", true), ped("player", "hero", true)];
    assert_eq!(resolve_default_ped_profile(&peds), Some(1));
    let peds = vec![ped("player", "hero", false), ped("npc", "guard", true)];
    assert_eq!(resolve_default_ped_profile(&peds), Some(1));
    assert_eq!(resolve_default_ped_profile(&vec![]), None);
    let peds = vec![ped("player", "hero", true), ped("npc", "guard", true)];
    assert_eq!(resolve_ped_profile_for_model("guard", &peds), Some(1));
    assert_eq!(resolve_character_ped("guard", Some("player".to_string()), &peds), Some(0));
}

#[test]
fn stairs_are_probed_every_frame() {
    let parents = HashMap::from([(2u64, 1u64)]);
    let stairs = HashSet::from([1u64]);
    let mut cache = AdaptiveIkSampleCache::default();
    let below = Some(Below { entity: 2, distance: f(0.2) });
    let r = publish_stairs_state_to_lua(&mut cache, below, true, &parents, &stairs);
    assert!(r.on_stairs && r.reacting && r.sample_now && r.high_quality);
    let mut samples = 0;
    for _ in 0..12 {
        let r = publish_stairs_state_to_lua(&mut cache, None, true, &parents, &stairs);
        assert_eq!(r.hit_distance, f(-1.0));
        samples += r.sample_now as u32;
    }
    assert_eq!(samples, 2);
    let probe = |step: Option<f32>, any: Option<f32>| FootProbe {
        on_step: step.map(f),
        on_any: any.map(f),
    };
    record_feet(&mut cache, probe(Some(1.0), Some(0.5)), probe(None, None));
    assert_eq!((cache.left_foot_y, cache.right_foot_y), (f(1.0), f(0.0)));
}

#[test]
fn legs_bend_with_their_weight() {
    let frame = LegFrame {
        complete: true,
        on_stairs: true,
        foot_y: f(1.0),
        len_a: f(0.4),
        len_b: f(0.4),
        eased_from_foot: f(1.1),
        eased_from_smooth: f(1.2),
        weight_up: f(0.15),
        weight_down: f(-0.06),
    };
    let fresh = FootIkBoneState { smooth_target_y: f(1.0), blend_weight: f(0.0) };
    assert_eq!(apply_leg_ik(None, &frame), LegStep::Attach(fresh));
    assert_eq!(
        apply_leg_ik(Some(fresh), &frame),
        LegStep::Bend(FootIkBoneState { smooth_target_y: f(1.1), blend_weight: f(0.15) })
    );
    let off = LegFrame { on_stairs: false, ..frame };
    assert_eq!(apply_leg_ik(Some(fresh), &off), LegStep::Rest(fresh));
    assert_eq!(apply_leg_ik(Some(fresh), &LegFrame { len_a: f(0.0), ..frame }), LegStep::Skip);
    assert!(knee_guides(f(0.1)) && !knee_guides(f(0.0)));
    assert_eq!(thigh_turn(f(0.0), f(1.0), f(0.5)), None);
    assert_eq!(thigh_turn(f(1.0), f(1.0), f(0.5)), Some(true));
    assert_eq!(thigh_turn(f(1.0), f(1.0), f(1.0)), Some(false));
    assert!(shin_turn(f(1.0), f(1.0), f(0.5)) && !shin_turn(f(0.0), f(1.0), f(0.5)));
}

#[test]
fn legs_are_found_by_their_bones() {
    let children = HashMap::from([(70u64, vec![71u64, 72, 73])]);
    let names = HashMap::from([
        (71u64, "DEF-thigh_l".to_string()),
        (72, "DEF_shin.L".to_string()),
        (73, "DEF_foot_r".to_string()),
    ]);
    let left = left_leg(70, &children, &names);
    assert_eq!((left.thigh, left.shin, left.foot), (Some(71), Some(72), None));
    let roots = vec![ModelRoot { entity: 60, parent: 9 }, ModelRoot { entity: 70, parent: 8 }];
    let legs = local_legs(Some(5), &vec![4, 5], &vec![7, 8], &roots, &children, &names).unwrap();
    assert_eq!(legs.0, left);
    assert_eq!(legs.1.foot, Some(73));
    assert!(local_legs(Some(6), &vec![4], &vec![7], &roots, &children, &names).is_none());
    assert!(local_legs(None, &vec![4], &vec![9], &roots, &children, &names).is_none());
}

#[test]
fn feet_pull_players_down() {
    let on = ground_below();
    assert_eq!(snap_feet(f(1.0), &on, f(0.5), f(0.5)), Some(SnapFeet::Both));
    assert_eq!(snap_feet(f(1.0), &on, f(0.0), f(0.5)), Some(SnapFeet::Right));
    assert_eq!(snap_feet(f(0.0), &on, f(0.5), f(0.5)), None);
    assert_eq!(snap_feet(f(1.0), &vec![], f(0.5), f(0.5)), None);
    assert_eq!(snap_velocity(f(-0.1), f(0.0), f(-1.2)), f(-1.2));
    assert_eq!(snap_velocity(f(0.1), f(0.0), f(-1.2)), f(0.0));
    assert_eq!(snap_velocity(f(-0.001), f(0.0), f(-1.2)), f(0.0));
    assert_eq!(snap_velocity(f(-0.1), f(-2.0), f(-1.2)), f(-2.0));
}

#[test]
fn figures_stand_for_players() {
    let predicted = HashSet::from([1u64]);
    assert!(attaches_model(1, true, &predicted) && !attaches_model(1, false, &predicted));
    assert!(attaches_model(2, false, &predicted));
    assert!(!prefer_predicted_player_visuals(1, &predicted));
    assert_eq!(player_capsule(None).height, f(1.80));
    assert_eq!(capsule_body(f(-1.0)), f(0.001));
    let figure = attach_player_model_to_new_players(&None, &Some("idle".to_string()), None);
    assert_eq!(figure.path, "models/player.adm");
    assert_eq!(figure.idle.unwrap().current.as_deref(), Some("idle"));
    assert!(!sync_net_transform_to_render(1, Some(1), true).moves);
    assert!(sync_net_transform_to_render(2, Some(1), false).moves);
    let parents = HashMap::from([(3u64, 2u64)]);
    let handles = HashMap::from([(2u64, 77u64)]);
    let handled = HashSet::from([2u64]);
    let hit = update_crosshair_entity(Some((3, f(4.0))), &parents, &handled, &handles).unwrap();
    assert_eq!((hit.handle, hit.distance), (77, f(4.0)));
    assert!(update_crosshair_entity(Some((9, f(4.0))), &parents, &handled, &handles).is_none());
    assert_eq!(local_object_source(Some("adm".to_string())), ModelSource::Adm);
    assert_eq!(local_object_source(None), ModelSource::Fallback);
    assert_eq!(asset_path("a\\b"), "a/b");
}

#[test]
fn plain_objects_have_extent() {
    let fog = FogVolume {
        color: white(),
        density_factor: f(-1.0),
        absorption: f(0.3),
        scattering: f(0.3),
        scattering_asymmetry: f(5.0),
        light_tint: white(),
        light_intensity: f(1.0),
    };
    let object = DummyObject {
        kind: DummyPrimitiveKind::Stairs,
        color: white(),
        size_x: f(0.0),
        size_y: f(1.0),
        size_z: f(2.0),
        radius: f(0.0),
        height: f(1.0),
        steps: 0,
        segments: 1,
        has_light: false,
        fog_volume: Some(fog),
    };
    let look = attach_mesh_to_dummy_objects(&object);
    assert_eq!(
        look.mesh,
        DummyMesh::Stairs { width: f(0.05), height: f(1.0), depth: f(2.0), steps: 1 }
    );
    let sane = look.fog.unwrap();
    assert_eq!((sane.density_factor, sane.scattering_asymmetry), (f(0.0), f(0.99)));
    let arch = DummyObject { kind: DummyPrimitiveKind::Arch, ..object };
    assert_eq!(
        attach_mesh_to_dummy_objects(&arch).mesh,
        DummyMesh::Arch {
            width: f(0.05),
            outer_radius: f(0.1),
            thickness: f(2.0),
            segments: 3
        }
    );
    let spot = DummyObject { kind: DummyPrimitiveKind::SpotLight, ..object };
    let look = attach_mesh_to_dummy_objects(&spot);
    assert_eq!(look.mesh, DummyMesh::Nothing);
    assert_eq!(look.undescribed_light, Some(RuntimeLightKind::Spot));
}

#[test]
fn recoil_walks_its_pattern() {
    let (mut recoil, mut sway, mut spread) = init_weapon_feel_components();
    let weapon = Some(RecoilPattern { len: 3, loop_from: 1, recovery: f(0.0) });
    let kicks: Vec<Option<usize>> =
        (0..4).map(|_| apply_weapon_recoil(&mut recoil, weapon, true, f(0.1))).collect();
    assert_eq!(kicks, vec![Some(0), Some(1), Some(2), Some(0)]);
    assert_eq!(apply_weapon_recoil(&mut recoil, weapon, true, f(0.0)), None);
    recoil.pattern_index = 2;
    assert_eq!(apply_weapon_recoil(&mut recoil, weapon, false, f(0.0)), None);
    assert_eq!(recoil.pattern_index, 1);
    assert!(fired(true, f(0.1)) && !fired(true, f(0.0)));
    let slots = vec![None, Some("ak".to_string())];
    assert_eq!(active_weapon(&slots, 1), "ak");
    assert_eq!(active_weapon(&slots, 0), "");
    assert_eq!(active_weapon(&slots, 9), "");
    let weapon = Some(SpreadDef {
        base: f(1.0),
        per_shot: f(0.5),
        recovery_rps: f(2.0),
        limit: f(5.0),
    });
    let sums = |with_shot: f32, shot: f32, limit: f32, rest: f32| SpreadSums {
        with_shot: f(with_shot),
        shot_recovered: f(shot),
        limit_recovered: f(limit),
        rest_recovered: f(rest),
    };
    spread.tick_spread_accumulation(weapon, true, f(0.1), sums(9.0, 8.0, 4.0, 0.0));
    assert_eq!((spread.accumulated, spread.max_spread), (f(4.0), f(5.0)));
    spread.tick_spread_accumulation(weapon, true, f(0.1), sums(4.5, 3.5, 4.0, 3.0));
    assert_eq!(spread.accumulated, f(3.5));
    spread.tick_spread_accumulation(None, true, f(0.0), sums(4.0, 3.0, 4.0, 2.5));
    assert_eq!(spread.accumulated, f(2.5));
    spread.tick_spread_accumulation(None, false, f(0.1), sums(3.0, 2.0, 4.0, 0.2));
    assert_eq!(spread.accumulated, f(1.0));
    let whole = SwayStep { x: f(0.5), y: f(-9.0), low: f(-1.0), high: f(1.0) };
    let reduced = SwayStep { x: f(0.15), y: f(-9.0), low: f(-0.3), high: f(0.3) };
    sway.set(false, false, whole, reduced);
    assert_eq!((sway.sway_x, sway.sway_y, sway.is_ads), (f(0.5), f(-1.0), false));
    sway.set(false, true, whole, reduced);
    assert_eq!((sway.sway_x, sway.sway_y, sway.is_ads), (f(0.15), f(-0.3), true));
    sway.set(true, false, whole, reduced);
    assert!(sway.is_ads);
    let mut last = false;
    assert!(spawn_muzzle_flash(&mut last, true));
    assert!(!spawn_muzzle_flash(&mut last, true));
    assert!(!spawn_muzzle_flash(&mut last, false));
    assert!(spawn_muzzle_flash(&mut last, true));
}
