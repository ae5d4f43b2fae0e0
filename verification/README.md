# synapse

The core of a microkernel for x86_64, with its behaviour stated in contracts and proved
with Verus.

- `src/` is the verified library:
  - `stack`: stacks growing up or down through a memory block;
  - `pager`: the pager interface, the page stack with its larger-page aggregation, the
    page iterator over a memory map, and the arrays and stacks mapped on demand;
  - `page_stack`: a page stack that borrows pages of a larger size;
  - `page_based`, `page_based_list`: a node allocator, a queue and a list whose nodes
    live in pages handed out by the pager;
  - `arch::x86_64`: the per-CPU memory layout, descriptor and interrupt tables, the
    timer's programming, the task map and scheduler, and the decisions of starting the
    other processors;
  - `logger`: where the frame buffer logger draws each message;
  - `sync`: the lock word and poisoning of a lock owned by one processor at a time.
- `tests/` exercises the library.
- `app/` is the kernel around it: hardware access, assembly, the global pager and the
  processor start-up sequence.
