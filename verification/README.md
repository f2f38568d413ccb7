# rustmote

A library, verified with [Verus](https://github.com/verus-lang/verus), and a program around it, that
keep a registry of self-hosted RustDesk relay servers and of the machines behind them, install and
update such a relay over SSH, and connect to a machine through one.

## Layout

- `src/` is the library. Every executable function in it carries a contract that Verus proves.
  - `text`, `textmap`, `path`, `time`, `net`, `json`: values the rest is built from, each with its
    mathematical model.
  - `error`: every failure, and what is said of it.
  - `config`, `registry`, `target`, `storage`: what is registered, and where it is kept.
  - `credentials`: the three ways to get a password, and who may read a file of them.
  - `session`: host keys that are pinned on first use, the order of login attempts, and what a remote
    command printed.
  - `discovery`, `mdns`: one list of hosts out of three sweeps of the local network, and the sweep
    that listens for announcements as a state machine.
  - `registry_client`: questions to an image registry, and the answers that are kept for a while.
  - `viewer`: which viewer is started, and how.
  - `relay_lifecycle`: the operations on a relay as state machines. Each step takes the reply to the
    last action and gives the next action, so that the remote, the registry, the clock and the record's
    file format stay outside. `laws`, `effects` and `history` state what holds of whole operations: a check changes
    nothing, nothing is written before every digest is known, a failed health check brings the files
    back.
  - `cli`: what the commands of the program decide and say.
- `app/` is the program: arguments, files, network and terminal.
- `tests/` runs the library on concrete values.

## What is trusted

The library calls a few functions of other crates (`chrono`, `ipnet`, `serde_json`, `base64`) and of the
standard library. Each call stands in a function of its own, marked `external_body`, or behind an
`assume_specification`. Its doc comment says what is claimed of the outside function without proof.
