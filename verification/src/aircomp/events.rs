use vstd::prelude::*;

verus! {

/// The window events the compositor's window reacts to.
#[derive(Debug, Clone, Copy, PartialEq, Eq, Structural)]
pub enum SurfaceEvent {
    CloseRequested,
    Resized { width: u32, height: u32 },
    RedrawRequested,
    Other,
}

/// A size of the window's surface in physical pixels.
#[derive(Debug, Clone, Copy, PartialEq, Eq, Structural)]
pub struct SurfaceSize {
    pub width: u32,
    pub height: u32,
}

/// What the window does in answer to an event.
#[derive(Debug, Clone, Copy, PartialEq, Eq, Structural)]
pub struct SurfaceResponse {
    /// Leave the event loop.
    pub exit: bool,
    /// Reconfigure the surface and the pipelines to this size.
    pub reconfigure: Option<SurfaceSize>,
    /// Paint a frame of the scene and the chrome.
    pub render: bool,
    /// Ask for another redraw.
    pub request_redraw: bool,
}

/// The answer to each event: a close request ends the loop; a resize
/// reconfigures the surface (unless a side is zero, as for a minimised
/// window) and asks for a redraw; a redraw request paints a frame and asks
/// for the next one; anything else is ignored.
pub open spec fn response_to(event: SurfaceEvent) -> SurfaceResponse {
    match event {
        SurfaceEvent::CloseRequested => SurfaceResponse {
            exit: true,
            reconfigure: None,
            render: false,
            request_redraw: false,
        },
        SurfaceEvent::Resized { width, height } => SurfaceResponse {
            exit: false,
            reconfigure: if width == 0 || height == 0 {
                None
            } else {
                Some(SurfaceSize { width, height })
            },
            render: false,
            request_redraw: true,
        },
        SurfaceEvent::RedrawRequested => SurfaceResponse {
            exit: false,
            reconfigure: None,
            render: true,
            request_redraw: true,
        },
        SurfaceEvent::Other => SurfaceResponse {
            exit: false,
            reconfigure: None,
            render: false,
            request_redraw: false,
        },
    }
}

/// Decides what the compositor's window does in answer to `event`.
pub fn respond_to_event(event: SurfaceEvent) -> (r: SurfaceResponse)
    ensures
        r == response_to(event),
{
    match event {
        SurfaceEvent::CloseRequested => SurfaceResponse {
            exit: true,
            reconfigure: None,
            render: false,
            request_redraw: false,
        },
        SurfaceEvent::Resized { width, height } => SurfaceResponse {
            exit: false,
            reconfigure: if width == 0 || height == 0 {
                None
            } else {
                Some(SurfaceSize { width, height })
            },
            render: false,
            request_redraw: true,
        },
        SurfaceEvent::RedrawRequested => SurfaceResponse {
            exit: false,
            reconfigure: None,
            render: true,
            request_redraw: true,
        },
        SurfaceEvent::Other => SurfaceResponse {
            exit: false,
            reconfigure: None,
            render: false,
            request_redraw: false,
        },
    }
}

} // verus!
