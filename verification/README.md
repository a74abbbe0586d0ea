# airos

The state and rules of a small desktop environment, verified with Verus:
a terminal (grid, panes, split layout, tabs), a file manager (panels,
breadcrumbs, sidebar, sorting), a first-run wizard, system settings, the
shell (dock, notifications, top bar, bus message handling), the compositor's
window scene and client protocol, and the framing of socket messages.

- `src/` is the verified library. Each module keeps a mathematical model of
  its state (a `View`), states its operations over that model, and proves the
  laws that hold across operations (see the `pub proof fn` items).
- `tests/` runs the library on concrete values.
- `app/` is the unverified shell around it: the demo client, socket
  connections (tokio, bincode, MessagePack), serde copies of the message
  types, and everything built on floating point or the GPU (colours, layout,
  wgpu pipelines, the winit window).
