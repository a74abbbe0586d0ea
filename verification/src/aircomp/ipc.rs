use vstd::prelude::*;
use crate::aircomp::scene::{
    SceneModel, WindowScene, added_window, commit_allowed, committed_buffer, removed_window,
    resized_window,
};
use crate::aircomp::window::{buffer_fits, size_ok};
use crate::airproto::messages::ClientMessage;

verus! {

/// A message can be applied to a scene: a window is only made or resized at
/// a size whose RGBA byte count fits a `u32`, and pixels only go to a window
/// whose size has such a byte count.
pub open spec fn message_applicable(m: SceneModel, msg: ClientMessage) -> bool {
    match msg {
        ClientMessage::WindowCreate { size, .. } => size_ok(size),
        ClientMessage::WindowResize { size, .. } => size_ok(size),
        ClientMessage::BufferCommit { id, .. } => commit_allowed(m, id),
        ClientMessage::WindowDestroy { .. } => true,
    }
}

/// Whether `msg` can be applied to `scene` (see `message_applicable`).
pub fn can_apply(scene: &WindowScene, msg: &ClientMessage) -> (r: bool)
    requires
        scene.wf(),
    ensures
        r == message_applicable(scene@, *msg),
{
    match msg {
        ClientMessage::WindowCreate { size, .. } => buffer_fits(*size),
        ClientMessage::WindowResize { size, .. } => buffer_fits(*size),
        ClientMessage::BufferCommit { id, .. } => match scene.get(*id) {
            Some(w) => buffer_fits(w.size),
            None => true,
        },
        ClientMessage::WindowDestroy { .. } => true,
    }
}

/// Applies one message from a client to the scene: create, destroy, resize or
/// commit pixels of a window.
pub fn handle_client_message(scene: &mut WindowScene, msg: ClientMessage)
    requires
        old(scene).wf(),
        message_applicable(old(scene)@, msg),
    ensures
        final(scene).wf(),
        match msg {
            ClientMessage::WindowCreate { id, size } => added_window(old(scene)@, final(scene)@, id, size),
            ClientMessage::WindowDestroy { id } => removed_window(old(scene)@, final(scene)@, id),
            ClientMessage::WindowResize { id, size } => resized_window(old(scene)@, final(scene)@, id, size),
            ClientMessage::BufferCommit { id, data } => committed_buffer(old(scene)@, final(scene)@, id, data@),
        },
{
    match msg {
        ClientMessage::WindowCreate { id, size } => scene.add_window(id, size),
        ClientMessage::WindowDestroy { id } => scene.remove_window(id),
        ClientMessage::WindowResize { id, size } => scene.resize_window(id, size),
        ClientMessage::BufferCommit { id, data } => scene.commit_buffer(id, data),
    }
}

} // verus!
