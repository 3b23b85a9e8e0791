# herdr_npm

A Herdr plugin that lists a project's npm scripts in a sidebar column and
launches one in a background tab. The rules of the plugin are a Verus library
(`src/`); the program around it (`app/`) talks to the terminal, the disk and
the Herdr socket.

## Layout

- `src/domain/`: the catalogue, package-manager detection, `package.json`
  parsing, fuzzy search, shell quoting, the working-pane choice, the sidebar
  toggle decision, errors.
- `src/application/`: use cases as step functions: finding the project
  directory, opening the sidebar (`open_step`), launching a script
  (`launch_step`), closing.
- `src/adapters/`: environment values, socket replies, workspace discovery
  rules and the upward walk (`project_walk`), and the sidebar itself under
  `tui/` (state machine, layout, the lines it shows).
- `app/`: `main`, the terminal loop, drawing with ratatui, the socket client,
  the directory walk on disk, and the floating-point resize of the new pane.
- `tests/`: the library's tests.

Each step function takes the state and what the last request returned, and
gives the next state and request; the program performs the request and calls
it again. The contracts of these functions, and the proof functions named
`lemma_*` that are public, state what the plugin promises.
