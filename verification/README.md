# rustos

The verified core of a small x86-64 kernel, written in Verus: its memory
bookkeeping (buddy frame allocator, swap slots, virtual memory regions,
user-space access checks), its network protocols (Ethernet, ARP, IPv4/IPv6,
ICMP, TCP, DHCP, DNS, packet buffers, DMA rings, devices), its package
formats and database (ar, tar, gzip, deb control files) and its PCI
configuration, detection and device database.

- `src/` is the library. Every function carries a contract that Verus
  proves; time, random values, physical addresses and page-walk results
  are taken as arguments. Calls into `miniz_oxide` and a few std functions
  stand behind small trusted wrappers, each documented where it is declared.
- `tests/` runs the library on concrete inputs.
- `app/` holds the kernel glue: shared instances behind spin locks, hardware
  intrinsics, console reports, and (in `app/user_memory.rs`) the reads and
  writes of user memory and of the page tables that the library's copy and
  swap-in steps ask for.
