# dsh-ui

A macOS desktop shell around the `dsh` web interface, with its logic verified by Verus.

- `src/` is the library. Every function states in its contract what it returns or changes, and
  the laws that hold of the library as a whole are public proof functions.
  - `environment`: the search for `dsh` and Node.js, one question at a time
  - `launch`: from a detection to a process, or to a message that says why there is none
  - `process`: the life of a `dsh` process as a state machine
  - `ready`: the line by which `dsh` announces its address
  - `navigation`: which addresses the content view may show
  - `session`: what the shell knows and shows of `dsh`
  - `settings`, `theme`, `zoom`, `terminal`, `pty`, `shell`: the smaller parts
  - `paths`, `text`, `numbers`: what the others are built on
- `app/` is the application: processes, files, the pseudo-terminal, and the windows. These are
  built with Tauri 2 (features `tray-icon` and `unstable`) and its plugins for the shell, for a
  single instance and for the window state, on macOS.
- `tests/` runs the library.

Calls that Verus does not see into stand behind small functions in `src/` that say, in their
comments, what is taken on trust: `std::path::Path::parent`, `String::from_utf8`,
`String::from_utf8_lossy`, `url::Url` and `serde_json`.
