# candle-zencan-adapter

Adapter that lets Candle-compatible USB-CAN interfaces be used through the asynchronous traits of
zencan, on Windows.

- `src/` is the library, verified with Verus. It decides everything and does no I/O: an operation
  on a device is a state machine that names the next call to make and is advanced with what came
  of it.
- `app/` is ordinary Rust around the library: the calls on WinUSB and SetupAPI, the worker thread,
  and the sender and the receiver that users hold.
- `tests/` runs the library against scripted replies.

| module | what it holds |
| --- | --- |
| `error` | error codes and the errors that users see |
| `can` | identifiers and messages, and the calls into `zencan_common` |
| `wire`, `frame` | byte layouts, and the frames that carry messages |
| `usb` | calls, replies, and what an operation is |
| `device` | devices and lists of devices |
| `control`, `transfer` | control transfers, and sending and receiving frames |
| `open`, `lifecycle`, `scan` | opening, closing and finding devices |
| `session` | listing devices, and opening a channel |
| `worker`, `endpoint` | the worker loop, and the two ends that users hold |
