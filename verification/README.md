# media-pipeline

The core of an artifact-centric media production pipeline: a job goes through
the stages planning, research, script, speech, speech validation, captions,
render and QA, and each stage is a service of its own.

- `src/` is the verified library. It holds the job queue, the artifact store,
  the handlers of the API gateway, the dispatch of stages with its retries, what
  each stage decides and computes, the mock stages, and what operators are shown.
- `app/` holds the programs around it: HTTP servers and clients, SQLite files,
  runs of ffmpeg and ffprobe, and the command line. It carries out what the
  library asks for, and hands back what came of it.
- `tests/` runs the library.

The library does no input or output. Where a decision needs some, a type such as
`dispatch::Dispatch` or `demo::Demo` says what is to be done next and takes what
came of it.

The contracts of the outside crates that the library calls (`serde_json`, `toml`,
`chrono`, `uuid`, and a few functions of the standard library) stand beside the
functions that make the calls, each with a comment on what is claimed.
