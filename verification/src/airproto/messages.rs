use vstd::prelude::*;
use crate::airproto::types::{Size, WindowId};

verus! {

/// A message from a client to the compositor.
#[derive(Debug, Clone, PartialEq)]
pub enum ClientMessage {
    WindowCreate { id: WindowId, size: Size },
    WindowDestroy { id: WindowId },
    BufferCommit { id: WindowId, data: Vec<u8> },
    WindowResize { id: WindowId, size: Size },
}

} // verus!
