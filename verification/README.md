# agl

Core logic of a game launcher's package and runtime layer, written in Verus:
archive formats and listings, compression streams, digests and package
hashes, text encodings, module scopes and sandbox permissions, resource
storage paths, download planning, package manifests and the package
installer's state machine.

- `src/` is the verified library. Each public function states what it
  returns in its contract; the laws that relate several functions are public
  proof functions. Calls into outside crates go through small trusted
  wrappers whose contracts are documented next to them.
- `tests/` run the library on concrete inputs, with the outside crates linked.
- `app/` holds what stays outside the verifier: the async runtime, running
  `tar` and `7z`, HTTP downloads, files on disk, and the loop that drives the
  installer.
