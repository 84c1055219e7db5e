# sp1_debugger

The debugger of a RISC-V zkVM executor, verified with Verus.

A remote debugger (GDB or LLDB) reads and writes the registers and the memory
of the executor, sets breakpoints and watchpoints, catches syscalls, and moves
the execution forward and backward. What the executor answers, where it stops
and what state it is in afterwards are decided by the library under `src/`:

- `state`, `executor`: the machine and the debugger, and their mathematical
  views.
- `access`: registers, and memory by bytes.
- `control`: the commands to move, and what to stop at.
- `event_loop`: the decisions of the loop between two stops. The caller looks
  at the connection and executes cycles; the loop says when.
- `description`: the memory map, the target description and the register
  table.
- `heap`: the allocator of the programs that run in the machine.
- `collections`: the `hashbrown` tables behind breakpoints, watchpoints and the
  syscall filter. Their contracts are trusted.
- `laws`: what holds of the operations together, such as that a read gives
  back what was written, and that steps back undo cycles.

`app/` connects the library to the `gdbstub` protocol over TCP and to the
global allocator interface. It is generic over the machine that executes the
instructions.
