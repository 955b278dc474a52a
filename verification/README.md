# ship

A terminal interface for managing images kept in remote OCI registries:
push, pull, delete and prune images, with configurable registry commands,
key bindings and OCI command.

## Layout

- `src/` is the verified library (Verus). It holds everything the program
  decides: reading digests and image listings, grouping images into
  projects, the persisted store of remote images, key bindings, what each
  action changes and which commands it asks to run, what a command's outcome
  changes, and what each part of the interface shows.
- `app/` is the program around it: the terminal (crossterm and ratatui), the
  configuration and store files (serde), running shell and container engine
  commands, and the event loop (tokio). It hands the library plain values and
  runs what the library asks for.
- `tests/` exercises the library on concrete values.

## Configuration

The configuration file is `config.json` in the platform's configuration
directory for `ship`, written with defaults on first run. Its fields are
`ociCmd` (default `docker`), `projectRegistries` (project name to registry),
`registryCommands` (registry to `deleteImage` and `listImages` shell
commands), `commandBehaviours` (`pushImage`, `deleteImage`, `pullImage`:
`"async"` or `"interactive"`, the default) and `keymaps` (action to a list of
`{ "key": ..., "modifiers": ... }` bindings).

Delete commands have `{id}`, `{repository}`, `{project}` and `{digest}`
replaced before they run; listing commands have `{project}` replaced.
