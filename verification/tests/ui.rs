use bevy_game::auth_ui::{AuthBtn, AuthUiState, FocusedField, PanelChange};
use bevy_game::client_config::{ClientConfig, ServerEntry};
use bevy_game::console::{on_event, ConsoleLog, ConsoleState, LogSeverity};
use bevy_game::gui_render::{
    hide_used, pool_sizes, render_gui, DrawCommand, FontChoice, SlotCounts, SlotWrite,
};
use bevy_game::http_files::{
    check_request, guess_content_type, is_under, native_path, serve_resource_file, FileStep,
};
use bevy_game::lobby::{
    address_to_parse, handle_add_fav_btn, handle_remove_fav_btn, kind_color, update_button_colors,
    ButtonKind, ButtonShade, Interaction, LobbyState, TextTone,
};
use bevy_game::nui::{
    error_response, escape_js_string, find_nui_file, flush_nui_out, handle_nui_callback, handle_nui_request,
    mime_type_for, serve_nui_file, NuiFile, NuiFocusState, NuiOutMsg, NuiRequest,
};
use bevy_game::scalar::{scalar, Scalar};
use bevy_game::typing::{rub_out, type_text, Key, KeyEvent};

fn f(x: f32) -> Scalar {
    scalar(x.to_bits())
}

fn press(key: Key) -> KeyEvent {
    KeyEvent { pressed: true, key }
}

fn typed(s: &str) -> KeyEvent {
    press(Key::Character(s.to_string()))
}

#[test]
fn fields_take_what_can_be_seen() {
    let mut field = String::new();
    type_text(&mut field, "a b\u{7}c\u{85}", false);
    assert_eq!(field, "abc");
    type_text(&mut field, " d\n", true);
    assert_eq!(field, "abc d");
    rub_out(&mut field);
    assert_eq!(field, "abc ");
    let mut empty = String::new();
    rub_out(&mut empty);
    assert_eq!(empty, "");
}

#[test]
fn console_keeps_the_last_lines() {
    let mut log = ConsoleLog::new();
    for i in 0..600 {
        log.ring_push(format!("line {i}"));
    }
    assert_eq!(log.lines.len(), 512);
    assert_eq!(log.lines.front().unwrap(), "line 88");
    assert_eq!(log.lines.back().unwrap(), "line 599");
    let shown = log.shown();
    assert_eq!(shown.lines().count(), 30);
    assert!(shown.starts_with("line 570\n") && shown.ends_with("line 599"));
}

#[test]
fn console_marks_severity() {
    assert_eq!(on_event(LogSeverity::Info, ""), None);
    let marked = |level: LogSeverity| on_event(level, "careful").unwrap();
    assert_eq!(marked(LogSeverity::Error), "[ERR] careful");
    assert_eq!(marked(LogSeverity::Warn), "[WRN] careful");
    assert_eq!(marked(LogSeverity::Info), "[INF] careful");
    assert_eq!(marked(LogSeverity::Debug), "[DBG] careful");
    assert_eq!(marked(LogSeverity::Trace), "[TRC] careful");
}

#[test]
fn console_opens_and_takes_commands() {
    let mut log = ConsoleLog::new();
    let mut console = ConsoleState::default();
    console.type_input(&mut log, &vec![typed("x")]);
    assert_eq!(console.input, "");
    assert_eq!(console.redraw(f(0.1)), None);
    assert_eq!(console.toggle(false), None);
    assert_eq!(console.toggle(true), Some(true));
    console.type_input(&mut log, &vec![typed("he"), typed("lpx"), press(Key::Backspace)]);
    assert_eq!(console.input, "help");
    assert_eq!(console.redraw(f(0.1)).unwrap(), "help_");
    assert_eq!(console.redraw(f(0.5)).unwrap(), "help ");
    console.type_input(&mut log, &vec![press(Key::Enter)]);
    assert_eq!(console.input, "");
    assert!(log.lines.iter().any(|l| l.contains("help")));
    assert_eq!(console.toggle(true), Some(false));
}

#[test]
fn lobby_opens_with_the_default_server() {
    let mut cfg = ClientConfig::defaults(false);
    cfg.server_history.favorites = vec![
        ServerEntry { address: "1.2.3.4:5".to_string(), label: None, last_connected: None },
        ServerEntry {
            address: "6.7.8.9:10".to_string(),
            label: Some("home".to_string()),
            last_connected: None,
        },
    ];
    let mut lobby = LobbyState::default();
    lobby.status_msg = "old".to_string();
    let screen = lobby.setup_lobby_ui(&cfg);
    assert_eq!(lobby.ip_input, "127.0.0.1:5000");
    assert_eq!(lobby.status_msg, "");
    assert_eq!(screen.player_line, "Player: Player");
    assert_eq!(screen.favorites[0].label, "1.2.3.4:5");
    assert_eq!(screen.favorites[1].label, "home");
    assert!(!screen.empty_note);
    lobby.ip_input = "mine".to_string();
    cfg.server_history.favorites.clear();
    assert!(lobby.setup_lobby_ui(&cfg).empty_note);
    assert_eq!(lobby.ip_input, "mine");
}

#[test]
fn lobby_field_takes_keys_while_focused() {
    let mut lobby = LobbyState::default();
    assert!(!lobby.handle_keyboard_input(&vec![typed("9")]));
    assert_eq!(lobby.ip_input, "");
    lobby.handle_ip_field_click(&vec![Interaction::Pressed], &vec![Interaction::Hovered]);
    assert_eq!(lobby.update_ip_display(), "_");
    let released = KeyEvent { pressed: false, key: Key::Character("x".to_string()) };
    assert!(lobby.handle_keyboard_input(&vec![typed("1 2"), released, press(Key::Enter)]));
    assert_eq!(lobby.ip_input, "12");
    assert_eq!(lobby.update_ip_display(), "12");
    lobby.input_focused = true;
    lobby.handle_ip_field_click(&vec![Interaction::Pressed], &vec![Interaction::Pressed]);
    assert!(!lobby.input_focused);
}

#[test]
fn lobby_refuses_bad_addresses() {
    let mut lobby = LobbyState::default();
    assert_eq!(address_to_parse(" 1.2.3.4:5 "), "1.2.3.4:5");
    assert!(!lobby.try_connect(Err("nope".to_string())));
    assert_eq!(
        lobby.update_status_display(),
        ("Invalid address: nope".to_string(), TextTone::Error)
    );
    assert!(lobby.try_connect(Ok(())));
    assert_eq!(lobby.update_status_display(), ("".to_string(), TextTone::Dim));
    lobby.handle_scan_lan_btn();
    assert_eq!(lobby.status_msg, "LAN scan not yet implemented.");
    lobby.input_focused = true;
    assert_eq!(lobby.handle_fav_connect_btn("a:1"), "a:1");
    assert_eq!(lobby.handle_connect_btn(), "a:1");
    assert!(!lobby.input_focused);
}

#[test]
fn favorites_hold_an_address_once() {
    let mut favorites: Vec<ServerEntry> = Vec::new();
    assert!(handle_add_fav_btn(&mut favorites, " a:1 "));
    assert!(!handle_add_fav_btn(&mut favorites, "a:1"));
    assert!(!handle_add_fav_btn(&mut favorites, "  "));
    assert!(handle_add_fav_btn(&mut favorites, "b:2"));
    let addresses: Vec<&str> = favorites.iter().map(|e| e.address.as_str()).collect();
    assert_eq!(addresses, vec!["a:1", "b:2"]);
    handle_remove_fav_btn(&mut favorites, "a:1");
    assert_eq!(favorites.len(), 1);
    assert_eq!(favorites[0].address, "b:2");
}

#[test]
fn buttons_change_under_the_pointer() {
    assert_eq!(kind_color(ButtonKind::Danger), ButtonShade::Danger);
    assert_eq!(
        update_button_colors(Interaction::Pressed, ButtonKind::Connect),
        ButtonShade::Pressed
    );
    assert_eq!(
        update_button_colors(Interaction::Hovered, ButtonKind::Connect),
        ButtonShade::ConnectHovered
    );
    assert_eq!(update_button_colors(Interaction::Away, ButtonKind::Normal), ButtonShade::Normal);
}

#[test]
fn login_needs_a_name_and_a_password() {
    let mut panel = AuthUiState::default();
    assert_eq!(panel.manage_auth_ui(true, false), PanelChange::Open);
    assert_eq!(panel.manage_auth_ui(true, true), PanelChange::Keep);
    assert_eq!(panel.manage_auth_ui(false, true), PanelChange::Close);
    assert!(panel.submit(0).is_none());
    assert_eq!(panel.status_msg, "Username cannot be empty.");
    panel.username = " bob ".to_string();
    assert!(panel.submit(0).is_none());
    assert_eq!(panel.status_msg, "Password cannot be empty.");
    panel.password = "pw".to_string();
    let request = panel.submit(1).unwrap();
    assert_eq!((request.action, request.username.as_str()), (1, "bob"));
    assert_eq!(request.password, "pw");
    assert_eq!(panel.status_msg, "Sending register request…");
    assert!(panel.status_ok);
}

#[test]
fn login_fields_follow_the_keys() {
    let mut panel = AuthUiState::default();
    let events = vec![typed("bob"), press(Key::Tab), typed("s"), typed("é"), press(Key::Tab)];
    assert!(panel.handle_keyboard_input(true, &events).is_empty());
    assert_eq!(panel.username_text(), "bob_");
    assert_eq!(panel.password_text(), "***");
    assert_eq!(panel.focused, FocusedField::Username);
    assert!(panel.handle_keyboard_input(false, &vec![typed("x")]).is_empty());
    assert_eq!(panel.username, "bob");
    let sent = panel.handle_button_clicks(true, AuthBtn::Login).unwrap();
    assert_eq!(sent.action, 0);
    assert!(panel.handle_button_clicks(false, AuthBtn::Login).is_none());
    panel.poll_auth_result(true, Some("wrong".to_string()));
    assert_eq!((panel.status_msg.as_str(), panel.status_ok), ("wrong", false));
}

#[test]
fn literals_are_escaped_for_scripts() {
    assert_eq!(escape_js_string("it's\\\n\r"), "it\\'s\\\\\\n\\r");
    assert_eq!(escape_js_string("plain \"x\""), "plain \"x\"");
}

#[test]
fn pages_get_scripts() {
    let mut focus = NuiFocusState::default();
    let scripts = flush_nui_out(
        &vec![
            NuiOutMsg::Dispatch { resource_host: "core".to_string(), json: "{'a'}".to_string() },
            NuiOutMsg::SetFocus { has_focus: true, has_cursor: false },
            NuiOutMsg::AddFrame { resource_host: "core".to_string(), page: "ui.html".to_string() },
            NuiOutMsg::RemoveFrame { resource_host: "core".to_string() },
        ],
        &mut focus,
    );
    assert_eq!(
        scripts,
        vec![
            "window.__nui_dispatch('core', '{\\'a\\'}')".to_string(),
            "window.__nui_set_focus(true, false)".to_string(),
            "window.__nui_add_frame('core', 'ui.html')".to_string(),
            "window.__nui_remove_frame('core')".to_string(),
        ]
    );
    assert!(focus.has_focus && !focus.has_cursor);
}

#[test]
fn page_callbacks_have_names() {
    let body = vec![1u8, 2];
    let (message, reply) = handle_nui_callback("core/hud", "/callback/close/", &body);
    let message = message.unwrap();
    assert_eq!((message.resource_id.as_str(), message.callback_name.as_str()), ("core/hud", "close"));
    assert_eq!(message.data, body);
    assert_eq!((reply.status, reply.body), (200, b"{}".to_vec()));
    for path in ["/callback/", "/callback///", "/other"] {
        let (message, reply) = handle_nui_callback("core", path, &body);
        assert!(message.is_none());
        assert_eq!((reply.status, reply.body), (400, b"missing callback name".to_vec()));
    }
    assert_eq!(handle_nui_request("POST"), NuiRequest::Callback);
    assert_eq!(handle_nui_request("GET"), NuiRequest::File);
}

#[test]
fn page_files_come_from_the_cache() {
    match find_nui_file("/cache", "core/hud", "/ui/main.HTML") {
        NuiFile::Read(path) => assert_eq!(path, "/cache/core/hud/ui/main.HTML"),
        other => panic!("{:?}", other),
    }
    for (path, status) in [("/", 404), ("", 404), ("/../secret", 403), ("/a/./b", 403)] {
        match find_nui_file("/cache", "core", path) {
            NuiFile::Refused(reply) => assert_eq!(reply.status, status),
            other => panic!("{:?}", other),
        }
    }
    let served = serve_nui_file("/ui/a.png", Some(vec![7]));
    assert_eq!((served.status, served.body), (200, vec![7]));
    assert_eq!(served.content_type.as_deref(), Some("image/png"));
    for path in ["/ui/main.HTML", "//html"] {
        let page = serve_nui_file(path, Some(vec![]));
        assert_eq!(page.content_type.as_deref(), Some("text/html; charset=utf-8"));
    }
    assert_eq!(serve_nui_file("/ui/a.png", None).status, 404);
    for status in [100, 418, 999] {
        let plain = error_response(status, "no");
        assert_eq!((plain.status, plain.body.as_slice()), (status, "no".as_bytes()));
        assert_eq!(plain.content_type.as_deref(), Some("text/plain"));
    }
    for status in [0, 99, 1000, u16::MAX] {
        let broken = error_response(status, "no");
        assert_eq!((broken.status, broken.body.as_slice()), (500, "internal error".as_bytes()));
        assert!(broken.content_type.is_none() && !broken.any_origin);
    }
    assert_eq!(mime_type_for("a.mjs"), "text/javascript; charset=utf-8");
}

#[test]
fn served_files_stay_inside() {
    assert!(is_under("/vfs/a", "/vfs"));
    assert!(is_under("/vfs", "/vfs"));
    assert!(!is_under("/vfs2/a", "/vfs"));
    assert_eq!(native_path("a/b", "\\"), "a\\b");
    assert_eq!(check_request(&None, "/vfs"), FileStep::NotFound);
    let file = |p: &str| Some(p.to_string());
    assert_eq!(check_request(&file("/etc/passwd"), "/vfs"), FileStep::Forbidden);
    assert_eq!(check_request(&file("/vfs/a.lua"), "/vfs"), FileStep::Read);
    let ok = serve_resource_file(&file("/vfs/a.lua"), "/vfs", Some(vec![1]));
    assert_eq!((ok.status, ok.content_type.as_str()), (200, "text/plain; charset=utf-8"));
    assert_eq!(ok.body, vec![1]);
    let out = serve_resource_file(&file("/x"), "/vfs", Some(vec![1]));
    assert_eq!((out.status, out.body), (403, b"outside vfs root".to_vec()));
    let gone = serve_resource_file(&None, "/vfs", None);
    assert_eq!((gone.status, gone.body), (404, b"not found".to_vec()));
    assert_eq!(guess_content_type("x/y.glb"), "model/gltf-binary");
    assert_eq!(guess_content_type("x.unknown"), "application/octet-stream");
}

#[test]
fn a_frame_uses_what_is_asked() {
    let images = vec!["logo".to_string()];
    let cmds = vec![
        DrawCommand::Rect,
        DrawCommand::Line { length: f(0.4) },
        DrawCommand::Line { length: f(0.5) },
        DrawCommand::Circle,
        DrawCommand::Text { size: f(1.0), font_id: None },
        DrawCommand::Sprite { image_id: "missing".to_string() },
        DrawCommand::Sprite { image_id: "logo".to_string() },
    ];
    let mut used = SlotCounts { rects: 0, texts: 0, images: 0 };
    render_gui(&cmds, pool_sizes(), &vec![], &images, &mut used);
    assert_eq!(used, SlotCounts { rects: 26, texts: 1, images: 1 });
    let small = SlotCounts { rects: 20, texts: 0, images: 9 };
    render_gui(&cmds, small, &vec![], &images, &mut used);
    assert_eq!(used, SlotCounts { rects: 20, texts: 0, images: 1 });
}

#[test]
fn drawing_takes_slots_in_order() {
    let mut high = SlotCounts { rects: 9, texts: 9, images: 9 };
    let fonts = vec!["mono".to_string()];
    let images = vec!["logo".to_string()];
    let cmds = vec![
        DrawCommand::Rect,
        DrawCommand::Text { size: f(12.0), font_id: Some("mono".to_string()) },
        DrawCommand::Text { size: f(12.0), font_id: Some("other".to_string()) },
        DrawCommand::Sprite { image_id: "missing".to_string() },
        DrawCommand::Sprite { image_id: "logo".to_string() },
        DrawCommand::Rect,
    ];
    let pool = pool_sizes();
    let writes = render_gui(&cmds, pool, &fonts, &images, &mut high);
    assert_eq!(writes[0], SlotWrite::Rect { slot: 0, command: 0 });
    assert!(matches!(
        writes[1],
        SlotWrite::Text { slot: 0, command: 1, font: FontChoice::Loaded(0), .. }
    ));
    assert!(matches!(writes[2], SlotWrite::Text { slot: 1, font: FontChoice::Kept, .. }));
    assert_eq!(*writes.last().unwrap(), SlotWrite::Rect { slot: 1, command: 5 });
    assert_eq!((high.rects, high.texts), (2, 2));
    let few = SlotCounts { rects: 1, texts: 0, images: 0 };
    let writes = render_gui(&cmds, few, &fonts, &images, &mut high);
    assert_eq!(writes, vec![SlotWrite::Rect { slot: 0, command: 0 }]);
    assert_eq!(hide_used(&vec![5, 6, 7], 2), vec![5, 6]);
}
