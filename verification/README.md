# theseus_core

The logic of a Minecraft launcher's local servers and profile compression,
written in Verus: each function states its behaviour in `requires` /
`ensures` and Verus proves it.

## Layout

- `src/` — the verified library.
  - `text`, `numbers`: text and decimal numbers as sequences of characters.
  - `properties`, `config`: `server.properties`, `eula.txt`, start scripts
    and the launch command of a server.
  - `names`, `loader`, `java`: server and world names, content file names,
    server software, the Java a game version needs.
  - `servers`, `moves`: the servers index, new entries and free folder
    names, moving servers and profiles to another directory.
  - `versions`: which loader versions are offered and which one is used.
  - `archive`: which files of a profile go into its 7z archive, how they
    form solid blocks, and what compressing, extracting and launching do.
  - `metadata`, `encoding`, `content`: mod metadata, SHA-1 and base64,
    the content list of a server and which mods a sync copies.
  - `control`: starting, stopping and moving running servers; importing.
- `tests/` — tests of the library on concrete values.
- `app/` — the file, process and network work around the library.

Laws that span several functions stand in `src/` as public proof functions
named `law_*`, for example that compressing a profile loses no file
(`archive::law_no_file_lost`) and that written properties read back
(`properties::law_properties_round_trip`).
