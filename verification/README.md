# Simple Steam Wrapper

A Steam compatibility tool that sits between Steam and a Proton build: it
reads a per-game configuration, applies tweaks, and starts the game through
the chosen compatibility tool, optionally inside a Steam Linux Runtime. It
also manages wine prefixes and downloads Proton builds from GitHub.

## Layout

- `src/` is the library, written and proved with Verus. Its functions
  state what they compute in their `ensures`; the two that ask the machine
  whether a program is on `PATH` or a path exists (`executable_in_path`,
  `path_exists`) state nothing of their answer, and the functions that use
  them state what holds whatever it is:
  - `steam/`: Valve data files (`vdf`, read from text with `vdf_reader` in
    `vdf_text`), the installed Steam apps and libraries, tool manifests and
    tool declarations.
  - `compatibility_tools/`, `runner/`: compatibility tools, their command
    lines, the choice of the configured tool, wine prefixes and the command
    line that starts a game (tweak order included).
  - `config/`: the configuration, as typed values and as a YAML tree that
    the settings edit (dotted keys, merging onto defaults).
  - `gpu_tools/`, `gpu.rs`: graphics cards, named from the PCI id database,
    and the `nvidia-smi` report.
  - `dl_manager/`, `gui/`: GitHub releases, downloadable archives grouped by
    variant, the cache of fetched archives, where an archive is unpacked,
    and what the windows list and select.
  - `utils/`: text and number routines with exact specifications.
- `tests/` runs the library on concrete values.
- `app/` is the program: environment, files, processes, network, and the
  conversions between the library's values and those of `serde_yaml`.
