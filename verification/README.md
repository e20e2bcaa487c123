# pointify

Drives analog panel gauges from a desktop machine: CPU, memory, network, disk
and GPU readings, and the usage of two AI coding services, are turned into
PWM levels and streamed over USB serial to a small CH32 board that moves the
needles.

* `src/` — the verified library (Verus). The wire format shared by the
  desktop and the board (`gauge_protocol`), the board's command handling and
  USB control endpoint (`firmware`, `usb_control`), the gauge loop's decisions
  (`serial`), account and usage bookkeeping of the two services
  (`credentials` and the two service modules), hardware-monitor helpers
  (`monitor`), and application-level rules (`device`). Each public function carries a contract; the `law_*` proof
  functions state properties that span several functions.
* `tests/` — executable tests of the library.
* `app/` — the desktop program: threads, files, HTTP, serial and USB I/O,
  floating-point scaling, and the command interface, all calling the library
  for their decisions.

The board's own hardware shell (timer and USB register access, the jump into
the bootloader, the `no_std` entry point) is not part of this tree: it runs on
the board's RISC-V target, which this std library does not link into. Its
decisions (which output a word drives, at which duty; how the USB control
endpoint answers) are the ones verified in `firmware` and `usb_control`.
