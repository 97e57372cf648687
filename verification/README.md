# convwatcher

A folder-watching conversion daemon: files dropped into watched folders are
converted (video and audio with ffmpeg, images with the `image` crate, PDFs
with Ghostscript/qpdf/poppler, documents with pandoc, or a custom command)
once they stop growing, locally or on remote worker agents.

## Layout

- `src/` — the verified library (Verus). It holds the configuration model and
  its checks, preset resolution, the rule matching and stability tracking of
  the folder monitor, output naming, the ffmpeg/pandoc/PDF argument lists,
  the health state, the coordinator's agent pool and the wire framing, each
  with its contract. Public `law_*` proof functions state properties that
  span several calls (frame round trip, stream accounting, queue and history
  behaviour, stability of the monitor, override reloading).
- `app/` — the program around the library: YAML and JSON files, the HTTP
  endpoints, sockets, child processes, timers and the image crate.
  Started under a name containing `agent`, it runs the worker agent.
- `tests/` — tests of the library on concrete values.
