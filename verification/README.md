# ctfbot

A Discord bot that runs capture-the-flag challenges for the players of each
guild it serves. A player starts a challenge, which runs as a Kubernetes job;
they send commands to a shell in its pod, check flags, and stop it.

- `src/` is the library, verified with Verus: the catalogue (`repo`), the
  records (`models`), the state of a guild (`manager`) and of the bot (`bot`),
  what each command decides (`commands`), the cluster-side descriptions and
  the controller's connection state (`controller`), and the exchange with a
  shell (`exchange`). `search` and `text` hold the sequence lookups and the
  text operations they share.
- `app/` is the process around it: Discord commands and events, the requests
  to the cluster and the reads and writes on the shells.
- `tests/` runs the library on concrete values.

The central invariant, `ManagerView::wf`, says that a player is marked as
playing exactly when a session of theirs exists, on a challenge of the
catalogue; every operation that changes a guild keeps it.
