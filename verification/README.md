# apu650_probe

User-space side of the MediaTek APU midware ioctl interface (`/dev/apusys`),
as used on the MT6886 (APU 650), with its behaviour proved in Verus.

- `src/wire.rs` — little-endian field encoding and the lemmas that reading
  back what was written gives the same value (and the same bytes).
- `src/uapi.rs` — the argument structures of the handshake, memory, command
  and util ioctls: for each, `encoded` states its exact C layout, `parsed`
  how it is read, and `encode` / `decode` / `to_args` are proved against them.
  The argument sizes are proved to be 40 / 40 / 120 / 32 bytes.
- `src/ioctl.rs` — the ioctl request numbers, proved to carry the argument
  sizes above (`0xc0284120`, `0xc0284121`, `0xc0784122`, `0xc0204123`).
- `src/probe.rs` — which device classes and memory pools the probe queries,
  the runner's default device class, and the printable form of a metadata blob.
- `src/runner.rs` — the DLA runner's buffers and subcommand, and how a fence
  wait and a finished command are judged.
- `src/decimal.rs` — unsigned decimal parsing with the behaviour of
  `str::parse` for unsigned integers.
- `app/` — the probe and runner programs: opening the device, the `ioctl`,
  `poll` and `mmap` calls, files and printing.
