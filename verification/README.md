# Gaxibo

The core of a digital signage player's renderer, written in Rust and verified
with Verus. The renderer shows HTML layouts through WPE WebKit in a GStreamer
pipeline, on one Wayland surface. Its pages have no native channel to the
player, so they post their calls to the embedded web server that also serves
the layouts.

- `src/` is the library: the page's calls and their parsing, the rewriting of
  layouts, what the web server answers, HTTP ranges, the set-up of the Wayland
  surface, and what the renderer does about each event. Every function has a
  contract, and the modules ending in `_laws` state what holds of them together.
- `app/` is the program around it: sockets, files, threads, Wayland objects and
  the GStreamer pipeline. It performs what the library decides.
- `tests/` runs the library.

What is trusted, not proved, is marked where it stands: `String::push`,
`String::from_utf8_lossy` and the `{:?}` formatting of text in the standard
library, `next_tuple` of `itertools` and `HeaderField::equiv` of `tiny_http`.
