# video-wallpaper

A video wallpaper selector for Hyprland: a gallery of the videos in a
folder, applied per monitor through `mpvpaper`, themed from caelestia's
colour scheme.

- `src/` is the verified library (Verus): GPU detection from sysfs and
  `lspci` output, the video folder scan and its ordering, thumbnail paths and
  regeneration, hyprctl's monitor list, the per-monitor wallpaper
  assignments, the mpvpaper command line and the processes to stop, the
  gallery's navigation rules, the settings choices, and the stylesheet made
  from the colour scheme.
- `app/` is the GTK program around it: windows and widgets, processes, files,
  the TOML configuration, and the floating-point parts (panscan, scroll
  animation, seek times).
- `tests/` exercises the library.

`MonitorAssignments` keeps its (monitor, video) pairs in a `Vec`, with the
invariant that no monitor occurs twice, and is seen through a `Map` view.
vstd specifies `HashMap` only for key types that satisfy its
`obeys_key_model`, which vstd establishes for integers and `bool` but not
for `String`; a map keyed by monitor name could not be reasoned about.

The program loads only the generated theme stylesheet; a static stylesheet
(`style/base.css`, with transitions, sizes and the tile strip's padding) is
not part of this source tree.
