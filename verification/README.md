# florui_platform

The platform-independent core of the Florui desktop platform layer, written
in Verus: every function in `src/` carries a `requires`/`ensures` contract
that Verus proves, and the properties the layer promises as a whole stand
as public proof functions (`law_*`).

## Layout

- `src/` — the verified library.
  - `activation` — launch classification (`OpenUrl`, `OpenFiles`, `Launch`),
    single-instance object names, and the bounded activation queue.
  - `appearance` — the honest report of what a window was granted.
  - `accessibility` — stable accessibility ids interned by structural
    position, node semantics, and the per-render tree build.
  - `keyboard`, `host` — the desktop host's decisions: what a key press or
    IME event means, what a pointer press, release or hover does, and which
    windows redraw, save their geometry or wake the loop next.
  - `focus`, `input` — focus order and single-line input sanitizing.
  - `layout` — when a node lays its children out as inline content.
  - `view`, `component` — the lowering rules of the `view!` markup and the
    `#[component]` signature rules.
  - `paint` — 8-bit compositing, shadow compositing and paint order.
  - `file_dialog`, `menu`, `gpu`, `drag_drop`, `text` — smaller helpers.
- `tests/` — ordinary Rust tests of the library.
- `app/` — window-system pieces (`winit` attributes and key reading,
  appearance probing, the `wgpu` presenter, the clipboard, the AccessKit
  tree update, `tiny-skia` pixmaps, the serialized activation payload, OS
  preferences) and the floating-point pixel filters. There is no event
  loop here: the desktop host that would call the library's pointer,
  keyboard and scheduling decisions is built on the Florui runtime, which
  is not part of this crate.
