# sh_images

The verified core of Sh_Images, a native image viewer.

`src/` holds the viewer's logic with its specifications and proofs:

- `viewer_core/lru.rs`, `image_cache.rs`, `thumbnail_cache.rs`: LRU caches
  bounded by memory, with hit and miss counts;
- `navigation.rs`, `preload.rs`, `thumb_queue.rs`, `slideshow.rs`: browsing a
  folder, choosing the neighbours to decode ahead, the thumbnail work queue,
  slideshow timing;
- `session.rs`: what each user action changes and which effects it asks for;
- `actions.rs`, `shortcuts.rs`, `lang.rs`: actions, configurable shortcuts,
  interface texts;
- `thumbnail_gen.rs`, `utils/rounding.rs`, `utils/float_text.rs`: thumbnail
  sizes and printed numbers, with every binary64 rounding modelled on
  integers;
- `image_loader.rs`, `exif.rs`: decoding an image file's bytes and reading
  its EXIF block, with the failures sorted into the viewer's errors;
- `ui/info_panel.rs`, `ui/statusbar.rs`: the texts of the panels;
- `edit_state.rs`, `editor.rs`, `export.rs`: the editor's state, cropping and
  the name and format of a saved copy;
- `config/`, `utils/`: settings, paths, errors, the registry values of the
  default-viewer registration, text helpers.

`tests/` exercises the library, `app/` is the program around it: disk and
environment access, TOML settings, worker threads, a line-by-line action
prompt, and the floating-point view, filter and notification code.
