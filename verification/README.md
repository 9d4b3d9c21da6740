# cross

Zero-setup cross compilation and cross testing of Rust crates: `cross`
runs `cargo` inside a container image that holds the toolchain of the
target. This crate holds the logic of `cross` as a library verified with
Verus, and a thin program around it.

## Layout

- `src/` is the verified library. Every function there has a contract
  that Verus proves.
  - `cli.rs`, `config.rs`, `cross_toml.rs`, `toml_config.rs`,
    `cargo_toml.rs`: the command line, the environment and the
    configuration files (`Cross.toml`, the `cross` metadata of
    `Cargo.toml`, `.cargo/config.toml`), and how their settings take
    precedence over one another.
  - `target.rs`, `rustc.rs`, `rustup.rs`: targets, toolchain names,
    compiler versions and what `rustup` reports.
  - `docker/`: images and their platforms, the container engine, the
    directories shared with a container, the arguments of `docker run` and
    `docker build`, `.dockerignore` rules, and the steps of a remote run.
  - `commands/`: the logic of the `cross-util` subcommands.
  - `toml_text.rs`: the one place where the `toml` crate reads text.
  - `lib.rs`: setting up a run and filtering the arguments handed to cargo.
- `app/` is ordinary Rust: `main`, reading files and the environment,
  running the compiler, cargo and the container engine, and printing. It
  hands plain values to the library and acts on what comes back.
- `tests/` runs the library on concrete values.

The library calls outside crates (`shell-words`, `const-sha1`, `toml`,
`rustc_version`, `glob`) through a few trusted wrappers. Each wrapper's doc comment
says what its contract claims of the outside function.
