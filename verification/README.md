# upscale_pipeline

Generates AI videos through the OpenRouter video API and upscales them with
ffmpeg, with the decisions of the pipeline proved correct by Verus.

## Layout

- `src/` — the verified library.
  - `text.rs` — splitting, infix search, Unicode trimming, conversions.
  - `number.rs` — decimal rendering and `u32`/`i32` reading.
  - `cli.rs` — the command line: options, defaults, errors.
  - `api/tmpfiles.rs` — upload replies and the download link in a page.
  - `api/openrouter/` — request and reply types; service errors, job
    submission replies, polls, downloads and request headers.
  - `upscale.rs` — ffprobe output, the scale filter, ffprobe/ffmpeg arguments.
  - `pipeline.rs` — the whole run as a state machine (`step`).
- `app/` — the program: HTTP, files, processes, serde forms of the types,
  and the loop that performs the actions that `pipeline::step` decides.
- `tests/` — tests of the library on concrete values.
