use airos::aircomp::events::{respond_to_event, SurfaceEvent, SurfaceSize};
use airos::aircomp::ipc::{can_apply, handle_client_message};
use airos::aircomp::scene::WindowScene;
use airos::aircomp::window::{buffer_fits, WindowState};
use airos::airproto::messages::ClientMessage;
use airos::airproto::types::{Size, WindowId};

fn size(w: u32, h: u32) -> Size {
    Size { width: w, height: h }
}

#[test]
fn add_and_get_window() {
    let mut scene = WindowScene::new();
    scene.add_window(WindowId(1), size(800, 600));
    assert!(scene.get(WindowId(1)).is_some());
    assert_eq!(scene.window_count(), 1);
}

#[test]
fn remove_window() {
    let mut scene = WindowScene::new();
    scene.add_window(WindowId(1), size(800, 600));
    scene.remove_window(WindowId(1));
    assert!(scene.get(WindowId(1)).is_none());
    assert_eq!(scene.window_count(), 0);
}

#[test]
fn remove_nonexistent_window_is_noop() {
    let mut scene = WindowScene::new();
    scene.remove_window(WindowId(99));
    assert_eq!(scene.window_count(), 0);
}

#[test]
fn z_order_reflects_insertion() {
    let mut scene = WindowScene::new();
    scene.add_window(WindowId(1), size(100, 100));
    scene.add_window(WindowId(2), size(100, 100));
    assert_eq!(scene.z_order(), &[WindowId(1), WindowId(2)]);
}

#[test]
fn raise_to_front_moves_window_to_top() {
    let mut scene = WindowScene::new();
    scene.add_window(WindowId(1), size(100, 100));
    scene.add_window(WindowId(2), size(100, 100));
    scene.add_window(WindowId(3), size(100, 100));
    scene.raise_to_front(WindowId(1));
    let z = scene.z_order();
    assert_eq!(z[z.len() - 1], WindowId(1));
    assert_eq!(z.len(), 3);
}

#[test]
fn remove_window_also_removes_from_z_order() {
    let mut scene = WindowScene::new();
    scene.add_window(WindowId(1), size(100, 100));
    scene.add_window(WindowId(2), size(100, 100));
    scene.remove_window(WindowId(1));
    assert_eq!(scene.z_order(), &[WindowId(2)]);
}

#[test]
fn commit_buffer_updates_window_pixels() {
    let mut scene = WindowScene::new();
    scene.add_window(WindowId(1), size(1, 1));
    let pixels = vec![255u8, 0, 0, 255];
    scene.commit_buffer(WindowId(1), pixels.clone());
    assert_eq!(scene.get(WindowId(1)).unwrap().buffer, pixels);
}

#[test]
fn resize_window_updates_size() {
    let mut scene = WindowScene::new();
    scene.add_window(WindowId(1), size(100, 100));
    scene.resize_window(WindowId(1), size(200, 150));
    let w = scene.get(WindowId(1)).unwrap();
    assert_eq!(w.size.width, 200);
    assert_eq!(w.size.height, 150);
}

#[test]
fn adding_existing_window_replaces_it_without_duplicating_z_order() {
    let mut scene = WindowScene::new();
    scene.add_window(WindowId(1), size(1, 1));
    scene.add_window(WindowId(2), size(1, 1));
    scene.commit_buffer(WindowId(1), vec![9, 9, 9, 9]);
    scene.add_window(WindowId(1), size(2, 1));
    assert_eq!(scene.window_count(), 2);
    assert_eq!(scene.z_order(), &[WindowId(1), WindowId(2)]);
    let w = scene.get(WindowId(1)).unwrap();
    assert_eq!(w.buffer, vec![0u8; 8]);
}

#[test]
fn raise_unknown_window_puts_it_on_top_of_z_order() {
    let mut scene = WindowScene::new();
    scene.add_window(WindowId(1), size(1, 1));
    scene.raise_to_front(WindowId(5));
    assert_eq!(scene.z_order(), &[WindowId(1), WindowId(5)]);
}

#[test]
fn commit_wrong_size_to_scene_is_ignored() {
    let mut scene = WindowScene::new();
    scene.add_window(WindowId(1), size(1, 1));
    scene.commit_buffer(WindowId(1), vec![1, 2, 3]);
    assert_eq!(scene.get(WindowId(1)).unwrap().buffer, vec![0, 0, 0, 0]);
}

#[test]
fn get_mut_changes_the_stored_window() {
    let mut scene = WindowScene::new();
    scene.add_window(WindowId(1), size(1, 1));
    scene.get_mut(WindowId(1)).unwrap().commit_buffer(vec![1, 2, 3, 4]);
    assert_eq!(scene.get(WindowId(1)).unwrap().buffer, vec![1, 2, 3, 4]);
    assert!(scene.get_mut(WindowId(2)).is_none());
}

#[test]
fn new_window_has_zeroed_buffer() {
    let state = WindowState::new(Size { width: 2, height: 2 });
    assert_eq!(state.buffer.len(), 16);
    assert!(state.buffer.iter().all(|&b| b == 0));
}

#[test]
fn resize_clears_buffer() {
    let mut state = WindowState::new(Size { width: 2, height: 2 });
    state.commit_buffer(vec![1u8; 16]);
    state.resize(Size { width: 4, height: 4 });
    assert_eq!(state.buffer.len(), 64);
    assert!(state.buffer.iter().all(|&b| b == 0));
}

#[test]
fn commit_buffer_updates_pixels() {
    let mut state = WindowState::new(Size { width: 1, height: 1 });
    let pixels = vec![255u8, 0, 128, 255];
    state.commit_buffer(pixels.clone());
    assert_eq!(state.buffer, pixels);
}

#[test]
fn commit_buffer_wrong_size_is_ignored() {
    let mut state = WindowState::new(Size { width: 1, height: 1 });
    let original = state.buffer.clone();
    state.commit_buffer(vec![1u8; 999]);
    assert_eq!(state.buffer, original);
}

#[test]
fn client_create_message_adds_window() {
    let mut scene = WindowScene::new();
    handle_client_message(&mut scene, ClientMessage::WindowCreate { id: WindowId(1), size: size(800, 600) });
    assert_eq!(scene.get(WindowId(1)).unwrap().size.width, 800);
}

#[test]
fn client_destroy_message_removes_window() {
    let mut scene = WindowScene::new();
    scene.add_window(WindowId(1), size(100, 100));
    handle_client_message(&mut scene, ClientMessage::WindowDestroy { id: WindowId(1) });
    assert!(scene.get(WindowId(1)).is_none());
}

#[test]
fn client_messages_in_sequence_create_then_resize() {
    let mut scene = WindowScene::new();
    handle_client_message(&mut scene, ClientMessage::WindowCreate { id: WindowId(10), size: size(640, 480) });
    handle_client_message(&mut scene, ClientMessage::WindowResize { id: WindowId(10), size: size(1280, 720) });
    let w = scene.get(WindowId(10)).unwrap();
    assert_eq!(w.size.width, 1280);
    assert_eq!(w.size.height, 720);
}

#[test]
fn client_commit_message_sets_pixels() {
    let mut scene = WindowScene::new();
    handle_client_message(&mut scene, ClientMessage::WindowCreate { id: WindowId(3), size: size(1, 1) });
    handle_client_message(&mut scene, ClientMessage::BufferCommit { id: WindowId(3), data: vec![1, 2, 3, 4] });
    assert_eq!(scene.get(WindowId(3)).unwrap().buffer, vec![1, 2, 3, 4]);
}

#[test]
fn oversized_window_cannot_be_applied() {
    let big = size(70_000, 70_000);
    assert!(!buffer_fits(big));
    assert!(buffer_fits(size(16_384, 16_383)));
    assert!(!buffer_fits(size(32_768, 32_768)));
    let mut scene = WindowScene::new();
    assert!(!can_apply(&scene, &ClientMessage::WindowCreate { id: WindowId(1), size: big }));
    assert!(!can_apply(&scene, &ClientMessage::WindowResize { id: WindowId(1), size: big }));
    assert!(can_apply(&scene, &ClientMessage::WindowDestroy { id: WindowId(1) }));
    assert!(can_apply(&scene, &ClientMessage::WindowCreate { id: WindowId(1), size: size(800, 600) }));
    scene.add_window(WindowId(1), size(2, 2));
    assert!(can_apply(&scene, &ClientMessage::BufferCommit { id: WindowId(1), data: vec![] }));
    scene.get_mut(WindowId(1)).unwrap().size = big;
    assert!(!can_apply(&scene, &ClientMessage::BufferCommit { id: WindowId(1), data: vec![] }));
    assert!(can_apply(&scene, &ClientMessage::BufferCommit { id: WindowId(2), data: vec![] }));
}

#[test]
fn windows_to_draw_skips_missing_and_empty_windows() {
    let mut scene = WindowScene::new();
    scene.add_window(WindowId(1), size(1, 1));
    scene.add_window(WindowId(2), size(0, 5));
    scene.add_window(WindowId(3), size(2, 2));
    scene.raise_to_front(WindowId(9));
    scene.raise_to_front(WindowId(1));
    assert_eq!(scene.windows_to_draw(), vec![WindowId(3), WindowId(1)]);
}

#[test]
fn surface_events_get_their_responses() {
    let close = respond_to_event(SurfaceEvent::CloseRequested);
    assert!(close.exit && !close.render && !close.request_redraw && close.reconfigure.is_none());
    let resized = respond_to_event(SurfaceEvent::Resized { width: 800, height: 600 });
    assert_eq!(resized.reconfigure, Some(SurfaceSize { width: 800, height: 600 }));
    assert!(resized.request_redraw && !resized.exit && !resized.render);
    let minimised = respond_to_event(SurfaceEvent::Resized { width: 0, height: 600 });
    assert_eq!(minimised.reconfigure, None);
    assert!(minimised.request_redraw);
    let redraw = respond_to_event(SurfaceEvent::RedrawRequested);
    assert!(redraw.render && redraw.request_redraw && !redraw.exit);
    let other = respond_to_event(SurfaceEvent::Other);
    assert!(!other.exit && !other.render && !other.request_redraw && other.reconfigure.is_none());
}
