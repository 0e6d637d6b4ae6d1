# rp2350-hid-bridge

Firmware logic of a UART-to-USB-HID bridge, verified with Verus.

- `src/command.rs`: the command model, whitespace trimming of command lines,
  and the mapping from a decoded line's type name and fields to a command.
- `src/tasks.rs`: what each command does on the wire (keyboard and mouse
  reports and pauses), the status LED pattern, the HID++ read loop decision.
- `src/uart.rs`: line framing of the UART byte stream and the replies sent back.
- `src/hidpp.rs`: the request handler of the vendor-defined HID++ interface.
- `src/usb_desc.rs`: USB identity and the HID++ report descriptor.
- `app/`: the embassy firmware around the library (USB and UART setup, tasks,
  JSON decoding with `serde-json-core`).
