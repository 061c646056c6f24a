# mayoos

The verified core of Mayo OS, a small x86_64 hobby kernel.

- `src/` is the library, verified with Verus: byte-order conversion and the
  QEMU fw_cfg records, PCI configuration addresses and bus scanning, the
  four-level page-table walk, heap alignment and the fixed-size-block
  allocator's free lists, the keyboard decoder (over pc_keyboard), the
  decisions around the input queues, the shell's
  line editor and command parser, ELF headers, and identifier counters.
- `tests/` exercises the library on concrete values.
- `app/` is the kernel binary around it: port I/O, interrupt handlers, page
  mapping, the global allocator, the executor and the tasks. It acts on the
  steps that the library decides.
