# Managed rooms

The rules of managed rooms on a multiplayer rhythm-game server, written and proved in Verus.

A *reserved* room is booked once for a fixed list of players and expires. A *hosted* room lives
across rounds, stays while it is empty, and comes back after a restart.

`src/` is the library:

- `definition` says which definitions are accepted and what their normal form is; `ids`, `room_id`
  and `text` hold what it rests on.
- `registry` holds the managed rooms by identifier.
- `plan` describes an operation as a list of commands with a way back, and walks through it.
- `runtime` decides about each operation and makes its plan.
- `callback`, `event` and `persistence` hold the rules for reports and for saved rooms.
- `admin`, `answer`, `patch` and `json` hold the administration interface: who is let in, what a
  request means, and what it is answered.
- `definition_laws`, `runtime_laws`, `restart_laws` and `admin_laws` state what holds of all of
  this together.

`tests/` runs the library. `app/` is the server around it: HTTP routes, database, callbacks and
timers.
