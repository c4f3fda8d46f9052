# kswim

Group membership and failure detection in the style of SWIM, written in
Verus.

- `src/` is the verified library: `ping` (probe answers), `peer` (the trait
  that users implement for their transport), `registry` (the members of a
  group and one round of failure detection, with its laws), `group` (one
  step of the task that owns a registry), `connection` (the settings check
  of a group and one step of the task that connects to a peer) and `sampling` (the calls into
  `rand`).
- `app/` is the program around it: the tokio tasks of a group, a TCP peer,
  and `main`.
- `tests/` runs the library on concrete peers.

The answers of peers come from users' implementations of `Peer`. Each call
that the failure detector makes on a peer comes with a relation in the trait
(`probed`, `probed_for`, `told_failure`) that an implementation may use to
say what the call does; the contracts of a round state that every answer it
reports is one that such a call gave, on the right peer, with the right
target and timeout.
