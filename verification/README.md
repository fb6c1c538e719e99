# horizon_ui

The decisions behind a spatial desktop shell: which bytes go to a remote
desktop, what a dropped file becomes on a remote host, what a key press means to
an embedded page, and what a panel may claim to show. Painting, processes and
sockets stand apart, so that every decision can be stated and proved.

The library is written for [Verus](https://github.com/verus-lang/verus): each
function carries a contract, and properties that span several functions are
public proof functions named `law_…` beside them.

## Layout

- `src/ssh_upload/` uploads dropped files over SSH or Taildrop: quoting for the
  remote shell, remote listings, the transfer step by step, the panel.
- `src/device/` views a remote desktop: its pixels, the connection's passes, the
  scale of its image, the input that is forwarded and let go of, and what the
  panel reports.
- `src/browser/` embeds a page: keyboard and pointer routing, viewport and zoom,
  menus, file requests, chrome.
- `src/canvas.rs`, `src/workspace.rs`, `src/workspace_visuals.rs` place
  workspaces on a zoomable canvas.
- `src/command_palette.rs`, `src/command_registry.rs`, `src/palette_layout.rs`
  find and lay out commands.
- `src/dir_picker/`, `src/startup.rs`, `src/work_resume.rs`, `src/tasks.rs`,
  `src/updates.rs`, `src/editor.rs`, `src/yaml_highlight.rs`, `src/branding.rs`
  and `src/util.rs` hold the rest of the shell.
- `app/` is ordinary Rust around the library: windows, threads and I/O.
- `tests/` runs the library on concrete values.

## Conventions

Lengths are integers in thousandths of a point, zoom factors in millionths, and
times in milliseconds; whatever a clock, a toolkit or a host decides is an
argument. Texts are specified as sequences of characters.
