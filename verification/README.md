# mde_shell

The logic of a Linux desktop shell — window marks, workspace naming and
routing, session restore, device discovery, panel applets, popovers and
first-run wizard pages — as a Verus library whose behaviour is stated in
`requires` / `ensures` contracts and proved.

* `src/` — the verified library, one module per subsystem:
  `marks`, `marks_bus`, `marks_worker`, `auto_mark` (window marks, their
  Bus responder and the worker's step function), `workspace`, `tags`, `template`, `session` (workspaces),
  `discovery` (device announcements), `mesh_status`, `network_applet`,
  `mesh_resource`, `top_bar`, `watermark`, `palette` (panel),
  `app_switcher`, `popover_network`, `notifications` (popovers),
  `mesh_topology` (workbench), `wizard`, and the shared `text`, `order`,
  `table` string and table utilities. Laws that relate several
  operations are public proof functions named `law_*`.
* `tests/` — executable tests of the library.
* `app/` — what the library cannot hold: file reads and writes, child
  processes, environment lookups, the serde wire forms of the library's
  types (among them the reading of a mark request body into the
  library's `MarkRequest`), the driver that feeds the mark worker its
  inputs and performs its actions, and the floating-point typography
  tokens. Every decision is made in `src/`.
