# Canopy

A local terminal LaTeX editor: edit `.tex` files, compile them inside an
ephemeral, network-isolated Docker container, and preview the PDF.

The project is split in two:

- `src/` — the `canopy` library, verified with Verus. It holds every decision
  the editor makes: the rope-backed buffer and its cursor arithmetic, the file
  browser and fuzzy finder models, the LaTeX highlighter, the theme and screen
  layout rules, the compile pass loop and container sandbox settings, the
  framing of the assistant's streamed replies, and the application state
  machine. Each public function states its behaviour in `requires`/`ensures`;
  the `law_*` proof functions state properties that span calls (undoing an
  edit, the sticky column, the pass limit, chunking-independent line framing,
  and so on).
- `app/` — the binary: argument parsing, the terminal, the Docker and HTTP
  clients, and the file system. It performs the I/O the state machine asks
  for and hands the results back as plain values.

Calls into `ropey`, `fuzzy-matcher`, `serde_json` and `std::path` are made
from the library through small trusted wrappers whose contracts say what the
outside function returns.

`tests/` exercises the library on concrete inputs.
