# humility-cmd-tasks

The logic of `humility tasks`, the ps-like view of the tasks of a Hubris
system, verified with Verus: what each row says of a task's scheduling state,
fault and notification bits, and how registers and stack backtraces are laid
out beneath it.

- `src/` is the verified library. `text` formats numbers and pads columns;
  `task_id` names tasks; `notification` decodes the bits a task waits on;
  `fault` and `state` explain faults and states; `stack` and `registers` lay
  out backtraces and registers; `listing` renders a whole pass of the listing.
- `app/` is the command itself: it reads the target through Humility and hands
  plain values to the library.
- `tests/` runs the library on the examples of the command's documentation and
  on edge cases.
