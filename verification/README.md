# kernel

The verified core of a hobby x86_64 kernel, written in Verus.

- `src/memory.rs`: bump allocation of 4 KiB physical frames from the usable
  regions of the boot memory map; frames are aligned, come from usable
  regions in map order and are never handed out twice when those regions do
  not overlap.
- `src/framebuffer.rs`: a text console drawn in software on a pixel
  framebuffer with glyphs of the Noto Sans Mono bitmap font.
- `src/interrupts.rs`: the interrupt vectors and descriptor table layout,
  the timer tick counter and the keyboard decoding step.
- `src/lib.rs`, `src/runner.rs`: bring-up order, the test harness protocol
  and how a test outcome reaches cargo through QEMU's exit device.

`app/` holds what runs around the library: the host runner that boots the
kernel in QEMU, and the kernel-side glue (statics, port I/O, descriptor
tables, interrupt handlers) that carries out what the library decides.
