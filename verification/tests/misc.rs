use localgpt::avatar::{
    handle_camera_mode_toggle, handle_pov_toggle, in_attached_mode, in_freefly_mode,
    AvatarMovementConfig, CameraMode, PointOfView, PovState,
};
use localgpt::behaviors::{
    add_behavior, behavior_type_name, remove_behaviors, BehaviorKind, BehaviorState,
    EntityBehaviors,
};
use localgpt::gen_cli::{child_args, GenArgs, GenCommands};
use localgpt::light::{LightDef, LightType};
use localgpt::material::MaterialDef;
use localgpt::mcp::{
    find_tool, line_step, method_not_found, route, tool_error_text, LineStep, NotificationKind,
    Route, INVALID_PARAMS,
};
use localgpt::server::{
    chat_text, default_player_name, next_entity_id, player_name, regeneration_seed,
    spawn_counter,
};
use localgpt::text::format_u64;
use localgpt::whitespace::{split_words, trim_str};

#[test]
fn light_type_default_is_directional() {
    assert_eq!(LightType::default(), LightType::Directional);
}

#[test]
fn camera_modes_and_pov() {
    let mut mode = CameraMode::default();
    assert!(in_freefly_mode(&mode));
    assert!(!handle_camera_mode_toggle(true, &mut mode, false));
    assert_eq!(mode, CameraMode::FreeFly);
    assert!(!handle_camera_mode_toggle(true, &mut mode, true));
    assert!(in_attached_mode(&mode));
    assert!(!handle_camera_mode_toggle(false, &mut mode, true));
    assert_eq!(mode, CameraMode::Attached);
    assert!(handle_camera_mode_toggle(true, &mut mode, true));
    assert_eq!(mode, CameraMode::FreeFly);
    let mut pov = PovState::default();
    assert_eq!(pov.pov, PointOfView::ThirdPerson);
    handle_pov_toggle(true, &mut pov);
    assert_eq!(pov.pov, PointOfView::FirstPerson);
    handle_pov_toggle(false, &mut pov);
    assert_eq!(pov.pov, PointOfView::FirstPerson);
    handle_pov_toggle(true, &mut pov);
    assert_eq!(pov.pov, PointOfView::ThirdPerson);
}

#[test]
fn behavior_ids_and_removal() {
    let mut state = BehaviorState::default();
    assert_eq!(state.next_id(), "b1");
    let mut entity: EntityBehaviors<u32> = EntityBehaviors { behaviors: Vec::new() };
    assert_eq!(add_behavior(&mut state, &mut entity, None, 10), "b2");
    assert_eq!(add_behavior(&mut state, &mut entity, Some("spin".to_string()), 20), "spin");
    assert_eq!(add_behavior(&mut state, &mut entity, None, 30), "b3");
    assert_eq!(add_behavior(&mut state, &mut entity, Some("spin".to_string()), 40), "spin");
    assert_eq!(state.next_id, 4);
    assert_eq!(remove_behaviors(&mut entity, Some("spin")), 2);
    let left: Vec<u32> = entity.behaviors.iter().map(|b| b.def).collect();
    assert_eq!(left, vec![10, 30]);
    assert_eq!(remove_behaviors(&mut entity, Some("nope")), 0);
    assert_eq!(remove_behaviors(&mut entity, None), 2);
    assert!(entity.behaviors.is_empty());
    assert_eq!(behavior_type_name(BehaviorKind::LookAt), "look_at");
    assert_eq!(behavior_type_name(BehaviorKind::PathFollow), "path_follow");
    assert_eq!(behavior_type_name(BehaviorKind::Bounce), "bounce");
}

#[test]
fn gen_child_arguments() {
    let args = GenArgs { command: None, prompt: Some("a castle".to_string()), scene: Some("s.glb".to_string()) };
    assert_eq!(child_args(args, "gen", true), vec!["--agent", "gen", "--verbose", "--scene", "s.glb", "a castle"]);
    let args = GenArgs { command: Some(GenCommands::McpServer), prompt: Some("ignored".to_string()), scene: None };
    assert_eq!(child_args(args, "x", false), vec!["--agent", "x", "mcp-server"]);
    let args = GenArgs {
        command: Some(GenCommands::Control { url: "http://h".to_string(), prompt: Some("go".to_string()) }),
        prompt: None,
        scene: None,
    };
    assert_eq!(child_args(args, "x", false), vec!["--agent", "x", "control", "http://h", "go"]);
}

#[test]
fn server_rules() {
    let long: String = "é".repeat(40);
    assert_eq!(player_name(&long).chars().count(), 32);
    assert_eq!(player_name("bob"), "bob");
    assert_eq!(default_player_name("0123456789abcdef"), "Player_01234567");
    assert_eq!(chat_text("  \t\n"), None);
    assert_eq!(chat_text(" hi "), Some(" hi ".to_string()));
    let big = "x".repeat(600);
    assert_eq!(chat_text(&big).unwrap().len(), 500);
    let mut counter = 0u64;
    assert_eq!(next_entity_id(&mut counter), 1);
    assert_eq!(next_entity_id(&mut counter), 2);
    assert_eq!(spawn_counter(Some(7)).count, 8);
    assert_eq!(spawn_counter(None).count, 1);
    assert_eq!(regeneration_seed(Some(5), 9), 5);
    assert_eq!(regeneration_seed(None, 9), 9);
    assert_eq!(regeneration_seed(None, -1), u64::MAX);
}

#[test]
fn mcp_dispatch() {
    assert!(matches!(line_step("  \n"), LineStep::Skip));
    match line_step(" {\"id\":1} \n") {
        LineStep::Message(m) => assert_eq!(m, "{\"id\":1}"),
        _ => panic!("expected Message"),
    }
    assert!(matches!(route(false, "notifications/initialized"), Route::Notification(NotificationKind::Initialized)));
    assert!(matches!(route(false, "notifications/cancelled"), Route::Notification(NotificationKind::Cancelled)));
    assert!(matches!(route(false, "initialize"), Route::Notification(NotificationKind::Other)));
    assert!(matches!(route(true, "initialize"), Route::Initialize));
    assert!(matches!(route(true, "tools/list"), Route::ToolsList));
    assert!(matches!(route(true, "tools/call"), Route::ToolsCall));
    assert!(matches!(route(true, "ping"), Route::Ping));
    assert!(matches!(route(true, "other"), Route::MethodNotFound));
    let e = method_not_found("other");
    assert_eq!(e.code, -32601);
    assert_eq!(e.message, "Method not found: other");
    let names = vec!["spawn".to_string(), "memory_search".to_string()];
    assert_eq!(find_tool(&names, Some("memory_search")).ok(), Some(1));
    let e = find_tool(&names, Some("fly")).err().unwrap();
    assert_eq!((e.code, e.message.as_str()), (INVALID_PARAMS, "Unknown tool: fly"));
    let e = find_tool(&names, None).err().unwrap();
    assert_eq!(e.message, "Missing 'name' parameter");
    assert_eq!(tool_error_text("boom"), "Error: boom");
}

#[test]
fn text_helpers() {
    assert_eq!(format_u64(0), "0");
    assert_eq!(format_u64(18446744073709551615), "18446744073709551615");
    assert_eq!(trim_str("\u{3000} a b \u{85}"), "a b");
    assert_eq!(split_words(" a\u{2003}bc  d "), vec!["a", "bc", "d"]);
    assert!(split_words("   ").is_empty());
}

#[test]
fn serde_defaults() {
    assert_eq!(localgpt::world::default_version(), 1);
    assert_eq!(localgpt::world::default_next_id(), 1);
    assert!(localgpt::light::default_true());
}

#[test]
fn light_def_defaults() {
    let l = LightDef::default();
    assert_eq!(l.light_type, LightType::Directional);
    assert!(l.shadows);
    assert_eq!(f32::from_bits(l.intensity), 1000.0);
    assert_eq!(l.color.map(f32::from_bits), [1.0, 1.0, 1.0, 1.0]);
    assert!(l.direction.is_none());
}

#[test]
fn default_material() {
    let m = MaterialDef::default();
    assert_eq!(m.color.map(f32::from_bits), [0.8, 0.8, 0.8, 1.0]);
    assert_eq!(f32::from_bits(m.metallic), 0.0);
    assert_eq!(f32::from_bits(m.roughness), 0.5);
    assert_eq!(m.emissive.map(f32::from_bits), [0.0, 0.0, 0.0, 0.0]);
}

#[test]
fn avatar_movement_defaults() {
    let c = AvatarMovementConfig::default();
    assert_eq!(f32::from_bits(c.move_speed), 5.0);
    assert_eq!(f32::from_bits(c.look_sensitivity), 0.003);
    assert_eq!(f32::from_bits(c.eye_height), 1.8);
    assert_eq!(f32::from_bits(c.pitch), 0.0);
    assert_eq!(f32::from_bits(c.yaw), 0.0);
    assert!(c.ground_clamp);
}
