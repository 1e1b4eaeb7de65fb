# bosiclaw

The runtime and installer logic of the BosiClaw desktop manager for
OpenClaw, verified with Verus.

- `src/` is the verified library. It decides which Node.js and OpenClaw
  runtime to use (the bundled one first, then a system installation), plans
  the commands to run and reads what they printed, parses the `env` file,
  compares versions, decides when the bundled `openclaw-runtime.tgz` has to
  be unpacked again, and computes the installer's results. It works on plain
  values: which paths exist, what a command printed, the content of a file.
  - `text`: trimming, splitting and prefixes over `Seq<char>`.
  - `version`: version parsing, the update comparison and its laws.
  - `platform`: path joining and the configuration locations.
  - `command`: commands as values (`CommandSpec`) and their outcomes.
  - `envfile`: the `KEY=value` file the gateway is started with.
  - `runtime`: runtime resolution, the extended `PATH`, launching OpenClaw.
  - `bundled`: the unpacked runtime and the version in its archive.
  - `installer`: environment report, install, uninstall and update
    commands and results, opening an install terminal.
  - `scripts`: the install, uninstall, update and terminal scripts.
- `app/` is the unverified shell around it: it reads the disk and the
  environment, runs processes and writes files, and hands the results to the
  library. Its report types carry the serde derives the front end needs.
- `tests/` runs the library on concrete values.
