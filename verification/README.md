# nexbox

The decision and text-processing logic of the NexBox desktop toolbox, written
in Verus and proved against its contracts.

- `src/` is the verified library: global hotkeys and media keys, the network
  and system tweaks (power plans, `.reg` files, page files, memory cleaning),
  the NVIDIA recording manager, the hardware recorder, the start-up decisions,
  and the music providers' cookies, login flows and response mapping (Qishui
  and Migu), over a small JSON model (`src/json.rs`).
- `app/` is the thin program around it: file input and output, conversion of
  parsed JSON into the library's values, serializable copies of the
  library's records, and the even thinning of a report's samples, which
  picks them with a floating-point stride.
- `tests/` runs the library on concrete values.
