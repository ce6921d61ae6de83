use glam::{Quat, Vec3};
use universe::game::handle_code;
use universe::game::begins_simulation;
use universe::game::{AspectRatio, Camera, GameSimulation, MeshRegistry, Object, Physics, ToGame, ViewFrustum};
use universe::mansel::Poll;
use universe::program::{messages_on_resume, react_to_window_event, WindowInput};
use universe::render::{is_gltf_path_exec, mesh_load_plan, scenes_outcome};
use universe::state::ResourcePool;
use universe::state::{frame_action, surface_format_index, FrameAction, SurfaceStatus};

fn object(path: &str, x: f32) -> Object {
    Object {
        position: Vec3::new(x, 0.0, 0.0),
        scale: Vec3::new(1.0, 1.0, 1.0),
        mesh_path: path.to_string(),
        rotation: Quat::IDENTITY,
    }
}

fn game() -> GameSimulation<u8, u32> {
    GameSimulation::new(
        Camera::new(Vec3::ZERO, Quat::IDENTITY, ViewFrustum::new(7u8)),
        Physics::new(13, Vec3::new(0.0, -9.8, 0.0)),
    )
}

#[test]
fn poll_pending_and_ready() {
    let p: Poll<u32> = Poll::Pending;
    assert!(p.is_pending());
    let r = Poll::Ready(7u32);
    assert!(!r.is_pending());
    assert_eq!(r.take_ready(), 7);
}

#[test]
fn gltf_suffix_is_recognised() {
    assert!(is_gltf_path_exec("./cube.gltf"));
    assert!(is_gltf_path_exec(".gltf"));
    assert!(is_gltf_path_exec("w\u{fc}rfel.gltf"));
    assert!(!is_gltf_path_exec("gltf"));
    assert!(!is_gltf_path_exec("cube.glb"));
    assert!(!is_gltf_path_exec("cube.gltf "));
    assert!(!is_gltf_path_exec(""));
}

#[test]
fn mesh_load_plan_accepts_gltf_only() {
    assert_eq!(mesh_load_plan("a/b.gltf".to_string()), Ok("a/b.gltf".to_string()));
    assert_eq!(
        mesh_load_plan("a/b.obj".to_string()),
        Err("universe only supports .gltf format for meshes as of now!".to_string())
    );
}

#[test]
fn scenes_outcome_needs_a_scene() {
    assert_eq!(scenes_outcome(0, 0), Err("There was no mesh to load bruh!".to_string()));
    assert_eq!(scenes_outcome(2, 1), Ok(()));
}

#[test]
fn physics_keeps_tick_rate() {
    let p = Physics::new(13, Vec3::new(0.0, -9.8, 0.0));
    assert_eq!(p.tick_rate(), 13);
    let g = game();
    assert_eq!(g.physics().tick_rate(), 13);
}

#[test]
fn register_object_adds_and_requests_mesh_once() {
    let mut g = game();
    assert_eq!(g.object_count(), 0);
    g.register_object(object("./cube.gltf", 1.0), 1);
    g.register_object(object("./cube.gltf", 2.0), 2);
    g.register_object(object("./ball.obj", 3.0), 3);
    assert_eq!(g.object_count(), 3);
    assert!(g.is_alive(0) && g.is_alive(1) && g.is_alive(2));
    assert!(g.is_mesh_registered(&"./cube.gltf".to_string()));
    assert!(g.is_mesh_registered(&"./ball.obj".to_string()));
    assert!(!g.is_mesh_registered(&"./other.gltf".to_string()));
    let loads = g.take_pending_mesh_loads();
    assert_eq!(loads, vec!["./cube.gltf".to_string(), "./ball.obj".to_string()]);
    assert!(g.take_pending_mesh_loads().is_empty());
}

#[test]
fn pool_object_mesh_requests_again() {
    let mut g = game();
    g.pool_object_mesh("m.gltf".to_string());
    g.pool_object_mesh("m.gltf".to_string());
    assert_eq!(g.take_pending_mesh_loads().len(), 2);
    assert!(g.is_mesh_registered(&"m.gltf".to_string()));
}

#[test]
fn kill_object_marks_dead_and_is_idempotent() {
    let mut g = game();
    g.register_object(object("a.gltf", 1.0), 1);
    g.register_object(object("a.gltf", 2.0), 2);
    g.kill_object(1);
    assert!(g.is_alive(0));
    assert!(!g.is_alive(1));
    g.kill_object(1);
    assert!(g.is_alive(0));
    assert!(!g.is_alive(1));
    assert_eq!(g.object_count(), 2);
}

#[test]
fn start_step_keeps_alive_and_drops_dead() {
    let mut g = game();
    g.register_object(object("a.gltf", 1.0), 10);
    g.register_object(object("a.gltf", 2.0), 20);
    g.register_object(object("a.gltf", 3.0), 30);
    g.kill_object(1);
    // the start pass goes from the last object to the first
    let mut index = g.object_count();
    let mut kept = Vec::new();
    while index > 0 {
        index -= 1;
        let (custom, obj) = g.detach_for_start(index);
        kept.push(g.settle_after_start(index, obj, custom));
    }
    assert_eq!(kept, vec![true, false, true]);
    assert_eq!(g.object_count(), 2);
    // survivors come back in reverse order
    let (c, o) = g.detach_for_start(0);
    assert_eq!(c, 30);
    assert_eq!(o.position.x, 3.0);
}

#[test]
fn update_step_drops_killed_object_and_draws_nothing_unloaded() {
    let mut g = game();
    g.register_object(object("a.gltf", 1.0), 10);
    g.register_object(object("a.gltf", 2.0), 20);
    g.kill_object(0);
    let (c, o, f) = g.detach_for_update(0);
    assert_eq!(c, 10);
    assert_eq!(f.position.x, 1.0);
    let drawn = g.settle_after_update(0, o, c, f);
    assert!(drawn.is_none());
    assert_eq!(g.object_count(), 1);
    let (c, mut o, f) = g.detach_for_update(0);
    assert_eq!(c, 20);
    o.position = Vec3::new(5.0, 0.0, 0.0);
    let drawn = g.settle_after_update(0, o, c, f);
    assert!(drawn.is_none());
    assert_eq!(g.object_count(), 1);
    // the new frame is the object's state after its update
    let (_, _, f) = g.detach_for_update(0);
    assert_eq!(f.position.x, 5.0);
}

#[test]
fn handle_mainframe_codes() {
    let mut g = game();
    assert_eq!(g.handle_mainframe(ToGame::Stop), handle_code::EXIT);
    assert_eq!(g.handle_mainframe(ToGame::Start), handle_code::ALL_GOOD);
    let r = AspectRatio { width: 1920, height: 1080 };
    assert_eq!(g.handle_mainframe(ToGame::UpdateCameraAspectRatio(r)), handle_code::ALL_GOOD);
    assert_eq!(handle_code::EXIT, -1);
    assert_eq!(handle_code::ALL_GOOD, 0);
}

#[test]
fn window_events_before_state_are_ignored() {
    let r = react_to_window_event(false, WindowInput::CloseRequested);
    assert!(!r.exit && r.to_game.is_none() && r.resize_surface.is_none() && !r.redraw);
}

#[test]
fn window_close_and_escape_exit() {
    let r = react_to_window_event(true, WindowInput::CloseRequested);
    assert!(r.exit);
    assert!(matches!(r.to_game, Some(ToGame::Stop)));
    let r = react_to_window_event(true, WindowInput::KeyboardInput { escape: true, pressed: true });
    assert!(r.exit && r.to_game.is_none());
    let r = react_to_window_event(true, WindowInput::KeyboardInput { escape: true, pressed: false });
    assert!(!r.exit);
    let r = react_to_window_event(true, WindowInput::KeyboardInput { escape: false, pressed: true });
    assert!(!r.exit);
    let r = react_to_window_event(true, WindowInput::RedrawRequested);
    assert!(r.redraw && !r.exit);
    let r = react_to_window_event(true, WindowInput::Other);
    assert!(!r.redraw && !r.exit && r.to_game.is_none());
}

#[test]
fn window_resize_updates_aspect_and_skips_zero_surface() {
    let r = react_to_window_event(true, WindowInput::Resized { width: 800, height: 600 });
    assert_eq!(r.resize_surface, Some((800, 600)));
    assert!(r.to_game == Some(ToGame::UpdateCameraAspectRatio(AspectRatio { width: 800, height: 600 })));
    let r = react_to_window_event(true, WindowInput::Resized { width: 0, height: 600 });
    assert_eq!(r.resize_surface, None);
    assert!(r.to_game == Some(ToGame::UpdateCameraAspectRatio(AspectRatio { width: 0, height: 600 })));
}

#[test]
fn resume_sends_start_then_aspect() {
    let m = messages_on_resume(1280, 720);
    assert_eq!(m.len(), 2);
    assert!(m[0] == ToGame::Start);
    assert!(m[1] == ToGame::UpdateCameraAspectRatio(AspectRatio { width: 1280, height: 720 }));
}

#[test]
fn resource_pool_first_wins() {
    let mut p: ResourcePool<u32> = ResourcePool::new();
    assert!(!p.contains(&"cube".to_string()));
    p.push("cube".to_string(), 1);
    p.push("ball".to_string(), 2);
    p.push("cube".to_string(), 3);
    assert!(p.contains(&"cube".to_string()));
    assert_eq!(*p.find(&"cube".to_string()), 1);
    assert_eq!(*p.find(&"ball".to_string()), 2);
}

#[test]
fn mesh_registry_read_after_write() {
    let mut r = MeshRegistry::new();
    assert_eq!(r.get(&"a".to_string()), None);
    r.insert("a".to_string(), false);
    r.insert("b".to_string(), true);
    assert_eq!(r.get(&"a".to_string()), Some(false));
    r.insert("a".to_string(), true);
    assert_eq!(r.get(&"a".to_string()), Some(true));
    assert_eq!(r.get(&"b".to_string()), Some(true));
    assert!(r.contains_key(&"b".to_string()));
    assert!(!r.contains_key(&"c".to_string()));
}

#[test]
fn object_without_mesh_requests_no_load_and_updates() {
    let mut g = game();
    g.register_object(object("", 1.0), 1);
    assert_eq!(g.object_count(), 1);
    assert!(!g.is_mesh_registered(&String::new()));
    assert!(g.take_pending_mesh_loads().is_empty());
    let (c, o, f) = g.detach_for_update(0);
    assert!(g.settle_after_update(0, o, c, f).is_none());
    assert_eq!(g.object_count(), 1);
    assert_eq!(g.frame_count(), 1);
    assert_eq!(g.info_count(), 1);
}

#[test]
fn start_step_death_leaves_frame_behind() {
    let mut g = game();
    g.register_object(object("a.gltf", 1.0), 1);
    g.register_object(object("a.gltf", 2.0), 2);
    let (c, o) = g.detach_for_start(1);
    // the behaviour kills its own object during its start
    g.kill_object(1);
    assert!(!g.settle_after_start(1, o, c));
    assert_eq!(g.object_count(), 1);
    assert_eq!(g.info_count(), 1);
    assert_eq!(g.frame_count(), 2);
}

#[test]
fn update_step_keeps_counts_aligned() {
    let mut g = game();
    for i in 0..4u32 {
        g.register_object(object("a.gltf", i as f32), i);
    }
    g.kill_object(2);
    let mut index = g.object_count();
    while index > 0 {
        index -= 1;
        let (c, o, f) = g.detach_for_update(index);
        let _ = g.settle_after_update(index, o, c, f);
        assert_eq!(g.info_count(), g.object_count());
        assert_eq!(g.frame_count(), g.object_count());
    }
    assert_eq!(g.object_count(), 3);
    assert!(g.is_alive(0) && g.is_alive(1) && g.is_alive(2));
}

#[test]
fn handle_messages_exits_on_stop_only() {
    let mut g = game();
    assert!(!g.handle_messages(vec![]));
    assert!(!g.handle_messages(vec![
        ToGame::Start,
        ToGame::UpdateCameraAspectRatio(AspectRatio { width: 4, height: 3 }),
    ]));
    assert!(g.handle_messages(vec![ToGame::Start, ToGame::Stop, ToGame::Start]));
}

#[test]
fn simulation_begins_on_start_only() {
    assert!(begins_simulation(Some(ToGame::Start)));
    assert!(!begins_simulation(Some(ToGame::Stop)));
    assert!(!begins_simulation(None));
    assert!(!begins_simulation(Some(ToGame::UpdateCameraAspectRatio(AspectRatio { width: 1, height: 1 }))));
}

#[test]
fn aspect_ratio_is_kept_until_stop() {
    let mut g = game();
    assert!(g.aspect_ratio() == AspectRatio { width: 16, height: 9 });
    let a = AspectRatio { width: 4, height: 3 };
    let b = AspectRatio { width: 16, height: 9 };
    let c = AspectRatio { width: 1, height: 1 };
    g.handle_mainframe(ToGame::UpdateCameraAspectRatio(a));
    assert!(g.aspect_ratio() == a);
    g.handle_mainframe(ToGame::Start);
    assert!(g.aspect_ratio() == a);
    let exit = g.handle_messages(vec![
        ToGame::UpdateCameraAspectRatio(b),
        ToGame::Stop,
        ToGame::UpdateCameraAspectRatio(c),
    ]);
    assert!(exit);
    assert!(g.aspect_ratio() == b);
    assert_eq!(*g.camera().view_frustum().lens(), 7u8);
    assert_eq!(g.camera().position().x, 0.0);
}

#[test]
fn custom_count_follows_objects() {
    let mut g = game();
    g.register_object(object("a.gltf", 1.0), 1);
    g.register_object(object("a.gltf", 2.0), 2);
    assert_eq!(g.custom_count(), 2);
    let (c, o) = g.detach_for_start(0);
    assert_eq!(g.custom_count(), 1);
    g.settle_after_start(0, o, c);
    assert_eq!(g.custom_count(), 2);
}

#[test]
fn surface_format_prefers_first_srgb() {
    assert_eq!(surface_format_index(&vec![false, true, true]), 1);
    assert_eq!(surface_format_index(&vec![false, false]), 0);
    assert_eq!(surface_format_index(&vec![true]), 0);
}

#[test]
fn frame_action_per_status() {
    assert!(matches!(frame_action(SurfaceStatus::Success), FrameAction::Draw));
    assert!(matches!(frame_action(SurfaceStatus::Suboptimal), FrameAction::Draw));
    assert!(matches!(frame_action(SurfaceStatus::Outdated), FrameAction::Reconfigure));
    assert!(matches!(frame_action(SurfaceStatus::Timeout), FrameAction::Skip));
    assert!(matches!(frame_action(SurfaceStatus::Occluded), FrameAction::Skip));
    assert!(matches!(frame_action(SurfaceStatus::Validation), FrameAction::Skip));
}

#[test]
fn update_pass_rotates_survivors_with_frames() {
    let mut g = game();
    for i in 0..4u32 {
        g.register_object(object("a.gltf", i as f32), i);
    }
    let mut index = g.object_count();
    while index > 0 {
        index -= 1;
        let (c, o, f) = g.detach_for_update(index);
        let _ = g.settle_after_update(index, o, c, f);
    }
    // all alive: the pass leaves [1, 2, 3, 0], each frame its object's state
    let mut order = Vec::new();
    for _ in 0..4 {
        let (c, o, f) = g.detach_for_update(0);
        assert_eq!(o.position.x, f.position.x);
        order.push(c);
        let _ = g.settle_after_update(0, o, c, f);
    }
    assert_eq!(order[0], 1);
}

#[test]
fn camera_update_changes_only_aspect() {
    let mut cam = Camera::new(Vec3::new(1.0, 2.0, 3.0), Quat::IDENTITY, ViewFrustum::new(5u8));
    assert!(cam.view_frustum().aspect_ratio() == AspectRatio { width: 16, height: 9 });
    cam.update_aspect_ratio(AspectRatio { width: 800, height: 600 });
    assert!(cam.view_frustum().aspect_ratio() == AspectRatio { width: 800, height: 600 });
    assert_eq!(cam.position().y, 2.0);
    assert_eq!(*cam.view_frustum().lens(), 5u8);
}

#[test]
fn update_pass_with_kills_and_moves_keeps_survivors_aligned() {
    let mut g = game();
    for i in 0..4u32 {
        g.register_object(object("a.gltf", i as f32), i);
    }
    let mut index = g.object_count();
    while index > 0 {
        index -= 1;
        let (c, mut o, f) = g.detach_for_update(index);
        // the behaviour moves its object, and the one at 2 kills the one at 0
        o.position = Vec3::new(10.0 + c as f32, 0.0, 0.0);
        if c == 2 {
            g.kill_object(0);
        }
        let _ = g.settle_after_update(index, o, c, f);
    }
    assert_eq!(g.object_count(), 3);
    assert_eq!(g.info_count(), 3);
    assert_eq!(g.frame_count(), 3);
    assert_eq!(g.custom_count(), 3);
    for _ in 0..3 {
        let (c, o, f) = g.detach_for_update(0);
        assert!(g.is_alive(0));
        assert_ne!(c, 0);
        assert_eq!(o.position.x, 10.0 + c as f32);
        assert_eq!(f.position.x, o.position.x);
        let _ = g.settle_after_update(0, o, c, f);
    }
}

#[test]
fn start_pass_with_kills_keeps_started_objects() {
    let mut g = game();
    for i in 0..3u32 {
        g.register_object(object("a.gltf", i as f32), i);
    }
    let mut index = g.object_count();
    while index > 0 {
        index -= 1;
        let (c, mut o) = g.detach_for_start(index);
        o.scale = Vec3::new(2.0, 2.0, 2.0);
        if c == 2 {
            g.kill_object(1);
        }
        g.settle_after_start(index, o, c);
    }
    assert_eq!(g.object_count(), 2);
    assert_eq!(g.info_count(), 2);
    let (c, o) = g.detach_for_start(0);
    assert_eq!(c, 2);
    assert_eq!(o.scale.x, 2.0);
}
