# pipekeep

`pipekeep` keeps a non-interactive command connected across temporary transport
failures. Its library is written in Verus: what the program decides about its
command line, streams, sessions, cancellation and retained output are functions
with contracts that Verus proves.

```sh
produce |
  pipekeep -- ssh host pipekeep --id banana -- remote-command |
  consume
```

The outer `pipekeep` restarts its transport after a disconnect. The inner one
creates a broker beside the remote command, or reconnects to it by absolute
stream positions.

## Layout

- `src/` is the verified library.
  - `cli`: the command line and its meaning.
  - `protocol`, `wire`, `output`, `json`, `text`: opening messages, frames, output
    facts, and the values in JSON text.
  - `attachment`, `broker`: what a session retains, who holds it, what becomes of
    input, and how output is sent, bounded, collected and replayed.
  - `cancellation`, `group_pidfd`: the one operation that may signal the original
    process group.
  - `input`, `outer`: the client side, its replay window and its reconnections.
  - `server`: the proxy between public streams and a broker.
  - `runtime`: where sessions live.
  - `acceptance`: the plans and verdicts of the trial program.
- `app/` is the program around it: processes, sockets, files, signals and clocks.
  It asks the library what to do, does it, and reports what came of it. The waits
  and time limits around processes, those of the trial program among them, are
  its own.
- `tests/` runs the library on concrete values.

## What is proved

Contracts are stated over mathematical models of each type. Laws that span
several functions are public proof functions beside them. Some of them:

- `outer::output_arrives_once` and `broker::input_arrives_once`: with buffering
  no byte of a stream is lost or repeated, however often the transport changes.
- `broker::sender::buffered_output_is_sent_whole`: the frames of an attachment
  carry every retained byte once and in order, and the exit last.
- `cancellation::at_most_one_term`, `at_most_one_kill`, `kill_waits_for_grace`,
  `settled_operations_are_silent`: in one operation the group's handle is asked
  for each signal at most once, for KILL only after the grace period, and for
  nothing once the group is gone or the operation has ended. The handle stands
  behind `group_pidfd::Authority`, which lists every call that is made on it.
- `broker::bounds::told_facts_are_valid`, `broker::collect::reads_are_bounded`,
  `output_is_kept_up_to_the_limit`: finite output is kept whole up to its limit,
  never exceeds it, and never claims what it does not have.
- `protocol::read_frame`, `frames_round_trip`, `cut_frames_are_refused`: a frame
  that was written is read back, and a part of one is refused.

Three functions of other crates and of the standard library are trusted: the
SHA-256 digest, the lookup of a value in JSON text, and the quoting of a word in a
diagnostic. Each says in its documentation what is claimed of it.
