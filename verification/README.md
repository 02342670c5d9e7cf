# cim_domain_nix

A verified library for working with Nix: it reads Nix source into syntax
trees and expression trees, edits expressions, reads flakes, `flake.lock`
files and `nix flake show` reports, maps git URLs to flake references, reads
git history of Nix files and lock files, converts dotfiles to home-manager
settings, builds NixOS network modules from a topology, and routes NATS
subjects and commands. Each function states its result in `requires` /
`ensures` contracts that Verus proves.

Layout:

- `src/` — the library, written in Verus. Calls into rnix, uuid, chrono and
  serde_json sit behind a few trusted wrappers, each documented above its
  declaration with what its contract claims.
- `tests/` — tests of the library on concrete inputs.
- `app/` — the ordinary Rust around it: running `nix`, `git` and the
  formatters, reading and writing files, and the estimates that work on
  floating point.
