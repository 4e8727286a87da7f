# andromeda

Andromeda is a small control plane for self-service virtual machines on a
libvirt host. Users sign in with Discord, and administrators or permitted users
create, start, stop, inspect and delete instances, each with a cloud-init seed
image, a qcow2 disk cloned from a cloud image and a libvirt domain.

The crate is written in Verus: its logic is executable Rust whose behaviour is
stated in `requires` / `ensures` contracts and proved.

## Layout

- `src/` — the verified library.
  - `auth/` — sign-in flow (login start, OAuth callback, session tokens),
    Discord's identity reply, permission checks.
  - `instances/` — the create, manage (start, stop, delete), read and list
    workflows, each a step function from state and event to next state and
    action.
  - `libvirt/` — the domain model, its XML document and the reader that
    proves the document reads back as the domain, domain generation.
  - `server/` — request checks, session extraction, error answers.
  - `startup.rs` — the preflight sequence as a step function.
  - `config.rs`, `settings.rs`, `paths.rs`, `storage.rs`, `seed.rs`, `net.rs`,
    `logging.rs`, `model.rs`, `text.rs`, `random.rs` — configuration, storage
    layout, cloud-init seed files, address checks, log lines, shared types,
    text helpers and the random source.
- `tests/` — tests of the library on concrete values.
- `app/` — the program around the library: command line, HTTP routing, the
  database, libvirt and process calls, and the loops that perform each
  workflow's actions and hand the results back.

Calls into outside crates (URL parsing, SHA-256, the OS random source, UUID
formatting, form encoding, local time) sit behind small trusted wrappers whose
doc comments say what their contracts claim.
