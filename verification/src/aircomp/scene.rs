use vstd::prelude::*;
use crate::aircomp::window::{WindowState, buffer_len, size_ok, zeros};
use crate::airproto::types::{Size, WindowId};

verus! {

/// Position of the window `id` in a window table, if present.
pub open spec fn window_position(windows: Seq<(WindowId, WindowState)>, id: WindowId) -> Option<int> {
    if exists|k: int| 0 <= k < windows.len() && windows[k].0 == id {
        Some(choose|k: int| 0 <= k < windows.len() && windows[k].0 == id)
    } else {
        None
    }
}

/// The z-order without `id`.
pub open spec fn without_window(order: Seq<WindowId>, id: WindowId) -> Seq<WindowId>
    decreases order.len(),
{
    if order.len() == 0 {
        order
    } else {
        let rest = without_window(order.drop_last(), id);
        if order.last() == id {
            rest
        } else {
            rest.push(order.last())
        }
    }
}

/// Model of the scene: windows by identifier, and the z-order from bottom
/// to top.
pub struct SceneModel {
    pub windows: Seq<(WindowId, WindowState)>,
    pub z_order: Seq<WindowId>,
}

/// The identifiers of a window table.
pub open spec fn window_ids(windows: Seq<(WindowId, WindowState)>) -> Seq<WindowId> {
    windows.map_values(|e: (WindowId, WindowState)| e.0)
}

/// A well-formed scene: window identifiers are distinct and the z-order holds
/// no identifier twice.
pub open spec fn scene_wf(m: SceneModel) -> bool {
    &&& window_ids(m.windows).no_duplicates()
    &&& m.z_order.no_duplicates()
}

/// `w` is window `id` freshly made at `size`: a zeroed buffer of that size.
pub open spec fn fresh_window(w: (WindowId, WindowState), id: WindowId, size: Size) -> bool {
    &&& w.0 == id
    &&& w.1.size == size
    &&& w.1.buffer@ == zeros(buffer_len(size))
}

/// `new` is `old` with slot `k` replaced and every other slot unchanged.
pub open spec fn only_slot_changed(
    old: Seq<(WindowId, WindowState)>,
    new: Seq<(WindowId, WindowState)>,
    k: int,
) -> bool {
    &&& new.len() == old.len()
    &&& forall|j: int| 0 <= j < old.len() && j != k ==> new[j] == old[j]
}

/// The effect of adding window `id` of `size`: a window with that identifier
/// is replaced in place, a new one is appended; either way it is fresh. A
/// new identifier goes on top of the z-order.
pub open spec fn added_window(old: SceneModel, new: SceneModel, id: WindowId, size: Size) -> bool {
    &&& match window_position(old.windows, id) {
        Some(k) => only_slot_changed(old.windows, new.windows, k) && fresh_window(new.windows[k], id, size),
        None => {
            &&& new.windows.len() == old.windows.len() + 1
            &&& new.windows.take(old.windows.len() as int) == old.windows
            &&& fresh_window(new.windows.last(), id, size)
        },
    }
    &&& new.z_order == if old.z_order.contains(id) {
        old.z_order
    } else {
        old.z_order.push(id)
    }
}

/// The effect of removing window `id`: it leaves the windows and the z-order.
pub open spec fn removed_window(old: SceneModel, new: SceneModel, id: WindowId) -> bool {
    &&& new.windows == match window_position(old.windows, id) {
        Some(k) => old.windows.remove(k),
        None => old.windows,
    }
    &&& new.z_order == without_window(old.z_order, id)
}

/// The effect of resizing window `id` to `size`: its buffer is cleared to the
/// new size; an unknown identifier changes nothing.
pub open spec fn resized_window(old: SceneModel, new: SceneModel, id: WindowId, size: Size) -> bool {
    &&& new.z_order == old.z_order
    &&& match window_position(old.windows, id) {
        Some(k) => only_slot_changed(old.windows, new.windows, k) && fresh_window(new.windows[k], id, size),
        None => new.windows == old.windows,
    }
}

/// Pixels can be committed to window `id`: if it exists, the byte count of
/// its size fits a `u32`.
pub open spec fn commit_allowed(m: SceneModel, id: WindowId) -> bool {
    match window_position(m.windows, id) {
        Some(k) => size_ok(m.windows[k].1.size),
        None => true,
    }
}

/// The effect of committing `data` to window `id`: the window takes the bytes
/// if they fit its size exactly and keeps its old ones otherwise; an unknown
/// identifier changes nothing.
pub open spec fn committed_buffer(old: SceneModel, new: SceneModel, id: WindowId, data: Seq<u8>) -> bool {
    &&& new.z_order == old.z_order
    &&& match window_position(old.windows, id) {
        Some(k) => {
            &&& only_slot_changed(old.windows, new.windows, k)
            &&& new.windows[k].0 == id
            &&& new.windows[k].1.size == old.windows[k].1.size
            &&& new.windows[k].1.buffer@ == if data.len() == buffer_len(old.windows[k].1.size) {
                data
            } else {
                old.windows[k].1.buffer@
            }
        },
        None => new.windows == old.windows,
    }
}

/// Window `id` is in the scene and has pixels to show.
pub open spec fn is_drawable(m: SceneModel, id: WindowId) -> bool {
    match window_position(m.windows, id) {
        Some(k) => m.windows[k].1.buffer@.len() > 0,
        None => false,
    }
}

/// The windows to paint, back to front: the z-order without identifiers
/// that have no window or no pixels.
pub open spec fn draw_order(m: SceneModel) -> Seq<WindowId> {
    m.z_order.filter(|id: WindowId| is_drawable(m, id))
}

/// The windows of the compositor and their stacking order.
pub struct WindowScene {
    windows: Vec<(WindowId, WindowState)>,
    z_order: Vec<WindowId>,
}

impl View for WindowScene {
    type V = SceneModel;

    closed spec fn view(&self) -> SceneModel {
        SceneModel { windows: self.windows@, z_order: self.z_order@ }
    }
}

proof fn lemma_window_position(windows: Seq<(WindowId, WindowState)>, id: WindowId, k: int)
    requires
        window_ids(windows).no_duplicates(),
        0 <= k < windows.len(),
        windows[k].0 == id,
    ensures
        window_position(windows, id) == Some(k),
{
    assert(windows[k].0 == id);
    assert(window_position(windows, id).is_some());
    let q = window_position(windows, id).unwrap();
    assert(0 <= q < windows.len() && windows[q].0 == id);
    assert(window_ids(windows)[q] == windows[q].0);
    assert(window_ids(windows)[k] == windows[k].0);
}

proof fn lemma_without_window(order: Seq<WindowId>, id: WindowId)
    ensures
        forall|i: int| 0 <= i < without_window(order, id).len() ==> exists|j: int|
            0 <= j < order.len() && #[trigger] without_window(order, id)[i] == order[j] && order[j] != id,
        order.no_duplicates() ==> without_window(order, id).no_duplicates(),
        !without_window(order, id).contains(id),
        forall|x: WindowId| x != id && order.contains(x) ==> without_window(order, id).contains(x),
    decreases order.len(),
{
    if order.len() > 0 {
        let front = order.drop_last();
        let rest = without_window(front, id);
        let w = without_window(order, id);
        lemma_without_window(front, id);
        assert forall|i: int| 0 <= i < w.len() implies exists|j: int|
            0 <= j < order.len() && #[trigger] w[i] == order[j] && order[j] != id by {
            if i < rest.len() {
                assert(w[i] == rest[i]);
                let j = choose|j: int| 0 <= j < front.len() && rest[i] == front[j] && front[j] != id;
                assert(order[j] == front[j]);
            } else {
                assert(w[i] == order.last());
                assert(order[order.len() - 1] == order.last());
            }
        }
        assert(!w.contains(id)) by {
            if w.contains(id) {
                let i = choose|i: int| 0 <= i < w.len() && w[i] == id;
                let j = choose|j: int| 0 <= j < order.len() && w[i] == order[j] && order[j] != id;
            }
        }
        assert forall|x: WindowId| x != id && order.contains(x) implies w.contains(x) by {
            let j = choose|j: int| 0 <= j < order.len() && order[j] == x;
            if j == order.len() - 1 {
                assert(w[w.len() - 1] == x);
            } else {
                assert(front[j] == x);
                assert(front.contains(x));
                let q = choose|q: int| 0 <= q < rest.len() && rest[q] == x;
                assert(w[q] == x);
            }
        }
        if order.no_duplicates() {
            assert(front.no_duplicates()) by {
                assert forall|i: int, j: int| 0 <= i < front.len() && 0 <= j < front.len() && i != j implies front[i] != front[j] by {
                    assert(front[i] == order[i]);
                    assert(front[j] == order[j]);
                }
            }
            assert forall|i: int, j: int| 0 <= i < w.len() && 0 <= j < w.len() && i != j implies w[i] != w[j] by {
                if i < rest.len() && j < rest.len() {
                    assert(w[i] == rest[i]);
                    assert(w[j] == rest[j]);
                } else {
                    let other = if i < rest.len() { i } else { j };
                    assert(w[other] == rest[other]);
                    let q = choose|q: int| 0 <= q < front.len() && rest[other] == front[q] && front[q] != id;
                    assert(order[q] == front[q]);
                    assert(order[order.len() - 1] == order.last());
                }
            }
        }
    }
}

/// Taking a window out of the z-order keeps the other windows in their
/// stacking order: the result is the z-order filtered to the other windows.
pub proof fn lemma_without_window_keeps_order(order: Seq<WindowId>, id: WindowId)
    ensures
        without_window(order, id) == order.filter(|w: WindowId| w != id),
    decreases order.len(),
{
    reveal(Seq::filter);
    if order.len() > 0 {
        lemma_without_window_keeps_order(order.drop_last(), id);
    }
}

/// Raising a window puts it on top of the stack, keeps every window that was
/// stacked, and holds none twice.
pub proof fn lemma_raise_to_front(order: Seq<WindowId>, id: WindowId)
    requires
        order.no_duplicates(),
    ensures
        without_window(order, id).push(id).no_duplicates(),
        without_window(order, id).push(id).last() == id,
        forall|x: WindowId| order.contains(x) ==> without_window(order, id).push(id).contains(x),
{
    lemma_without_window(order, id);
    let r = without_window(order, id).push(id);
    let w = without_window(order, id);
    assert forall|i: int, j: int| 0 <= i < r.len() && 0 <= j < r.len() && i != j implies r[i] != r[j] by {
        if i == r.len() - 1 {
            assert(w.contains(r[j]));
        } else if j == r.len() - 1 {
            assert(w.contains(r[i]));
        } else {
            assert(r[i] == w[i]);
            assert(r[j] == w[j]);
        }
    }
    assert forall|x: WindowId| order.contains(x) implies r.contains(x) by {
        if x == id {
            assert(r[r.len() - 1] == id);
        } else {
            let q = choose|q: int| 0 <= q < w.len() && w[q] == x;
            assert(r[q] == x);
        }
    }
}

impl WindowScene {
    pub open spec fn wf(&self) -> bool {
        scene_wf(self@)
    }

    pub fn new() -> (s: Self)
        ensures
            s.wf(),
            s@.windows.len() == 0,
            s@.z_order.len() == 0,
    {
        let s = WindowScene { windows: Vec::new(), z_order: Vec::new() };
        proof {
            assert(window_ids(s@.windows) =~= Seq::<WindowId>::empty());
        }
        s
    }

    fn find(&self, id: WindowId) -> (r: Option<usize>)
        requires
            self.wf(),
        ensures
            r.is_some() == window_position(self@.windows, id).is_some(),
            r.is_some() ==> r.unwrap() == window_position(self@.windows, id).unwrap() && r.unwrap()
                < self@.windows.len() && self@.windows[r.unwrap() as int].0 == id,
    {
        let n = self.windows.len();
        let mut i: usize = 0;
        while i < n
            invariant
                n == self.windows@.len(),
                i <= n,
                self.wf(),
                forall|k: int| 0 <= k < i ==> self.windows@[k].0 != id,
            decreases n - i,
        {
            if self.windows[i].0 == id {
                proof {
                    lemma_window_position(self.windows@, id, i as int);
                }
                return Some(i);
            }
            i = i + 1;
        }
        None
    }

    fn z_contains(&self, id: WindowId) -> (r: bool)
        ensures
            r == self@.z_order.contains(id),
    {
        let n = self.z_order.len();
        let mut i: usize = 0;
        while i < n
            invariant
                n == self.z_order@.len(),
                i <= n,
                forall|k: int| 0 <= k < i ==> self.z_order@[k] != id,
            decreases n - i,
        {
            if self.z_order[i] == id {
                return true;
            }
            i = i + 1;
        }
        false
    }

    fn z_remove(&mut self, id: WindowId)
        ensures
            final(self)@ == (SceneModel { z_order: without_window(old(self)@.z_order, id), ..old(self)@ }),
    {
        let n = self.z_order.len();
        let ghost old_order = self.z_order@;
        let mut kept: Vec<WindowId> = Vec::new();
        let mut i: usize = 0;
        proof {
            assert(old_order.take(0) =~= Seq::<WindowId>::empty());
        }
        while i < n
            invariant
                n == old_order.len(),
                old_order == self.z_order@,
                i <= n,
                kept@ == without_window(old_order.take(i as int), id),
            decreases n - i,
        {
            proof {
                assert(old_order.take(i + 1).drop_last() =~= old_order.take(i as int));
                assert(old_order.take(i + 1).last() == old_order[i as int]);
            }
            let w = self.z_order[i];
            if w != id {
                kept.push(w);
            }
            i = i + 1;
        }
        proof {
            assert(old_order.take(n as int) =~= old_order);
        }
        self.z_order = kept;
    }

    /// Adds window `id` of `size` with a zeroed buffer, replacing a window
    /// with the same identifier; a new identifier goes on top of the z-order.
    pub fn add_window(&mut self, id: WindowId, size: Size)
        requires
            old(self).wf(),
            size_ok(size),
        ensures
            final(self).wf(),
            added_window(old(self)@, final(self)@, id, size),
            window_position(final(self)@.windows, id).is_some(),
    {
        let state = WindowState::new(size);
        let ghost old_windows = self.windows@;
        match self.find(id) {
            Some(k) => {
                self.windows.set(k, (id, state));
                proof {
                    let w = self.windows@;
                    assert(window_ids(w) =~= window_ids(old_windows));
                    lemma_window_position(w, id, k as int);
                }
            },
            None => {
                self.windows.push((id, state));
                proof {
                    let w = self.windows@;
                    assert(window_ids(w) =~= window_ids(old_windows).push(id));
                    assert(!window_ids(old_windows).contains(id)) by {
                        if window_ids(old_windows).contains(id) {
                            let j = choose|j: int| 0 <= j < window_ids(old_windows).len() && window_ids(old_windows)[j] == id;
                            assert(old_windows[j].0 == id);
                        }
                    }
                    assert(window_ids(w).no_duplicates()) by {
                        assert forall|i: int, j: int| 0 <= i < window_ids(w).len() && 0 <= j < window_ids(w).len() && i != j implies window_ids(w)[i] != window_ids(w)[j] by {
                            if i == old_windows.len() {
                                assert(window_ids(old_windows).contains(window_ids(w)[j]));
                            } else if j == old_windows.len() {
                                assert(window_ids(old_windows).contains(window_ids(w)[i]));
                            } else {
                                assert(window_ids(w)[i] == window_ids(old_windows)[i]);
                                assert(window_ids(w)[j] == window_ids(old_windows)[j]);
                            }
                        }
                    }
                    lemma_window_position(w, id, old_windows.len() as int);
                    assert(w.take(old_windows.len() as int) =~= old_windows);
                }
            },
        }
        if !self.z_contains(id) {
            let ghost before = self.z_order@;
            self.z_order.push(id);
            proof {
                assert forall|i: int, j: int| 0 <= i < self.z_order@.len() && 0 <= j < self.z_order@.len() && i != j implies self.z_order@[i] != self.z_order@[j] by {
                    if i == before.len() {
                        assert(before.contains(self.z_order@[j]));
                    } else if j == before.len() {
                        assert(before.contains(self.z_order@[i]));
                    } else {
                        assert(self.z_order@[i] == before[i]);
                        assert(self.z_order@[j] == before[j]);
                    }
                }
            }
        }
    }

    /// Removes window `id` from the windows and from the z-order.
    pub fn remove_window(&mut self, id: WindowId)
        requires
            old(self).wf(),
        ensures
            final(self).wf(),
            removed_window(old(self)@, final(self)@, id),
            window_position(final(self)@.windows, id).is_none(),
            final(self)@.z_order == old(self)@.z_order.filter(|w: WindowId| w != id),
            !final(self)@.z_order.contains(id),
    {
        let ghost old_windows = self.windows@;
        match self.find(id) {
            Some(k) => {
                self.windows.remove(k);
                proof {
                    let w = self.windows@;
                    assert(window_ids(w) =~= window_ids(old_windows).remove(k as int));
                    assert(window_ids(w).no_duplicates()) by {
                        assert forall|i: int, j: int| 0 <= i < w.len() && 0 <= j < w.len() && i != j implies window_ids(w)[i] != window_ids(w)[j] by {
                            let i0 = if i < k { i } else { i + 1 };
                            let j0 = if j < k { j } else { j + 1 };
                            assert(window_ids(w)[i] == window_ids(old_windows)[i0]);
                            assert(window_ids(w)[j] == window_ids(old_windows)[j0]);
                        }
                    }
                    assert forall|j: int| 0 <= j < w.len() implies w[j].0 != id by {
                        let j0 = if j < k { j } else { j + 1 };
                        assert(w[j] == old_windows[j0]);
                        assert(window_ids(old_windows)[j0] == old_windows[j0].0);
                        assert(window_ids(old_windows)[k as int] == id);
                    }
                }
            },
            None => {},
        }
        proof {
            lemma_without_window(self.z_order@, id);
            lemma_without_window_keeps_order(self.z_order@, id);
        }
        self.z_remove(id);
    }

    /// The window `id`, if present.
    pub fn get(&self, id: WindowId) -> (r: Option<&WindowState>)
        requires
            self.wf(),
        ensures
            match window_position(self@.windows, id) {
                Some(k) => r == Some(&self@.windows[k].1),
                None => r.is_none(),
            },
    {
        match self.find(id) {
            Some(k) => Some(&self.windows[k].1),
            None => None,
        }
    }

    /// Mutable access to window `id`, if present; whatever the caller does
    /// through the reference lands in that window's slot.
    pub fn get_mut(&mut self, id: WindowId) -> (r: Option<&mut WindowState>)
        requires
            old(self).wf(),
        ensures
            final(self).wf(),
            match window_position(old(self)@.windows, id) {
                Some(k) => r matches Some(w) && *w == old(self)@.windows[k].1 && final(self)@ == (SceneModel {
                    windows: old(self)@.windows.update(k, (id, *final(w))),
                    ..old(self)@
                }),
                None => r is None && final(self)@ == old(self)@,
            },
    {
        match self.find(id) {
            Some(k) => {
                proof {
                    let ws = self.windows@;
                    assert forall|w: WindowState| #[trigger] window_ids(ws.update(k as int, (id, w))) =~= window_ids(ws) by {
                        assert(ws[k as int].0 == id);
                    }
                }
                let entry = &mut self.windows[k];
                Some(&mut entry.1)
            },
            None => None,
        }
    }

    /// The z-order, bottom first; the last window is on top (focused).
    pub fn z_order(&self) -> (s: &[WindowId])
        ensures
            s@ == self@.z_order,
    {
        self.z_order.as_slice()
    }

    /// Moves window `id` to the top of the z-order.
    pub fn raise_to_front(&mut self, id: WindowId)
        requires
            old(self).wf(),
        ensures
            final(self).wf(),
            final(self)@ == (SceneModel {
                z_order: without_window(old(self)@.z_order, id).push(id),
                ..old(self)@
            }),
            final(self)@.z_order == old(self)@.z_order.filter(|w: WindowId| w != id).push(id),
    {
        proof {
            lemma_raise_to_front(self.z_order@, id);
            lemma_without_window_keeps_order(self.z_order@, id);
        }
        self.z_remove(id);
        self.z_order.push(id);
    }

    /// Resizes window `id` (its buffer is cleared); nothing happens if there
    /// is no such window.
    pub fn resize_window(&mut self, id: WindowId, new_size: Size)
        requires
            old(self).wf(),
            size_ok(new_size),
        ensures
            final(self).wf(),
            resized_window(old(self)@, final(self)@, id, new_size),
    {
        match self.find(id) {
            Some(k) => {
                let mut state = WindowState::new(new_size);
                let ghost old_windows = self.windows@;
                self.windows.set(k, (id, state));
                proof {
                    let w = self.windows@;
                    assert(window_ids(w) =~= window_ids(old_windows));
                }
            },
            None => {},
        }
    }

    /// Gives window `id` new pixels (kept only if they fit its size); nothing
    /// happens if there is no such window.
    pub fn commit_buffer(&mut self, id: WindowId, data: Vec<u8>)
        requires
            old(self).wf(),
            commit_allowed(old(self)@, id),
        ensures
            final(self).wf(),
            committed_buffer(old(self)@, final(self)@, id, data@),
    {
        match self.find(id) {
            Some(k) => {
                let size = self.windows[k].1.size;
                let expected = size.width * size.height * 4;
                if data.len() == expected as usize {
                    let ghost old_windows = self.windows@;
                    let state = WindowState { size, buffer: data };
                    self.windows.set(k, (id, state));
                    proof {
                        let w = self.windows@;
                        assert(window_ids(w) =~= window_ids(old_windows));
                    }
                }
            },
            None => {},
        }
    }

    /// The windows to paint, back to front (see `draw_order`).
    pub fn windows_to_draw(&self) -> (v: Vec<WindowId>)
        requires
            self.wf(),
        ensures
            v@ == draw_order(self@),
    {
        let n = self.z_order.len();
        let ghost z = self.z_order@;
        let ghost pred = |id: WindowId| is_drawable(self@, id);
        let mut v: Vec<WindowId> = Vec::new();
        let mut i: usize = 0;
        proof {
            reveal(Seq::filter);
            assert(z.take(0) =~= Seq::<WindowId>::empty());
        }
        while i < n
            invariant
                n == z.len(),
                z == self@.z_order,
                self.wf(),
                pred == (|id: WindowId| is_drawable(self@, id)),
                i <= n,
                v@ == z.take(i as int).filter(pred),
            decreases n - i,
        {
            let id = self.z_order[i];
            proof {
                reveal(Seq::filter);
                assert(z.take(i + 1).drop_last() =~= z.take(i as int));
                assert(z.take(i + 1).last() == id);
            }
            match self.find(id) {
                Some(k) => {
                    if self.windows[k].1.buffer.len() > 0 {
                        v.push(id);
                    }
                },
                None => {},
            }
            i = i + 1;
        }
        proof {
            assert(z.take(n as int) =~= z);
        }
        v
    }

    pub fn window_count(&self) -> (n: usize)
        ensures
            n == self@.windows.len(),
    {
        self.windows.len()
    }
}

impl Default for WindowScene {
    fn default() -> (s: Self)
        ensures
            s.wf(),
            s@.windows.len() == 0,
            s@.z_order.len() == 0,
    {
        Self::new()
    }
}

} // verus!
