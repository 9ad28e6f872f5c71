# migo_graphics

The graphics layer of the Migo engine: the bookkeeping that decides what the
GPU is asked to do, proved correct with Verus.

- `src/` is the verified library. Each module states its behaviour in
  `requires` / `ensures` over mathematical models (`Seq`, `Map`, `Set`,
  spec functions), and the properties that span several calls are public
  proof functions named `law_*`.
  - damage tracking and buffer-age damage unions (`damage`)
  - atlas rectangle packing and atlas pages (`atlas_pack`, `texture_atlas`)
  - lifecycle state machines, resource and surface managers
    (`lifecycle`, `app_state`, `resources`, `surface_manager`,
    `surface_install`)
  - object, buffer and pixel-buffer pools, the command arena
    (`pool`, `buffer_pool`, `pbo_pool`, `arena`)
  - GL state shadows that drop redundant calls (`state_tracker`, `batching`)
  - draw batching plans and the save/restore stack (`batch_plan`,
    `state_stack`)
  - device classification, compressed formats, upload decisions, EGL
    configuration and the EGL surface registry (`device`, `compressed`,
    `upload`, `egl_config`, `egl_backend`, `gl_util`, `geometry`)
  - per-frame cleanup cadence and counters (`frame_state`), substring
    tests on driver strings (`text`)
  - the canvas manager's decisions between driver calls: onscreen
    recreation and sizing, resize plans, drawing-buffer bypass, bound
    context choice, declared buffer damage, state across calls
    (`canvas_plan`), and the registry of canvases (`canvas_registry`)
- `tests/` exercises the library on concrete values.
- `app/` is the unverified edge: EGL and GL driver calls made on the
  library's decisions, the lifecycle manager behind a mutex, and the parts
  that compute in floating point (frame pacing, dirty-rectangle geometry,
  ratios).
