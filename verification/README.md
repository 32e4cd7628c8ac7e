# dermixen_app

The view-models and rules behind the Dermixen window, verified with Verus:
the plain state the window paints and the commands it calls, each with a
contract that says what it does.

- `src/` is the library, every function of it proved against its contract:
  the document and its unsaved-changes question (`document`), the transport
  state (`playback`), the audio kept for the preview (`audio`), the library
  panel's sorting, searching and filtering (`library`, `order`), the text
  fields of the settings dialog (`fields`, `status`), the files the window
  keeps and finds (`autosave`, `locations`, `corrections`, `paths`), what is
  said after a scan and after the tracks are pointed at their files
  (`scanning`, `relinking`), the grid editor's adjustments (`grid`), the lane
  labels (`lanes`), what the window says as it opens (`opening`) and the
  command line (`launch`).
- `tests/` runs the library on concrete values.
- `app/` is the ordinary Rust around it: the file system, the environment,
  and the tempo fields and times, which are floating-point numbers.
