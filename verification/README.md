# formal_os

A small microkernel for x86_64, written in Verus. Three tasks share one processor: a
kernel task and two user tasks, each with an address space of its own. They pass messages
over two endpoints (send, receive, reply), map and unmap pages, and are scheduled by
priority with a time slice.

`src/` is the verified library. Everything in it computes on plain values: a tick takes
the kernel from one state to the next, and tells the machine what to do and what to put
out by a list of effects and, where an answer is needed, by a request on which the tick
goes on later.

- `mem`, `types`: addresses, pages, frames, page attributes, address spaces
- `mm`: the usable frames of the boot memory map
- `arch`: the address layout, page-table roots and the window onto physical memory, the
  checks before a switch of the page table, guarded access to user memory, exceptions
- `logging`: numbers, the serial line, the text screen
- `kernel`: the state (`state`, `model`), scheduling (`sched`), messages (`endpoint`,
  `ipc`), deaths (`kill`), system calls (`syscall`), ticks (`tick`), the self-check
  (`invariants`), the dump (`dump`), the traces (`trace`), the demos and the user programs
- `kernel/laws`: what holds across functions. In a kernel that starts with frames for the
  roots of both user tasks, and without the single-shot mailbox, the self-check never finds
  anything. A message that is sent arrives, whoever waits for a dead task is sent on, a
  second mapping of a page is refused, tracing changes nothing but the trace, message
  passing is logged, nobody who leaves a queue unserved is lost, and more

`app/` is the machine around it: boot, descriptor tables, trap entry, page tables, ports.
`tests/` runs the library on concrete values.
