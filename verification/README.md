# ireplay

Firmware logic for an ESP32 infrared remote: it records infrared signals,
stores them under numeric ids in a small database served over HTTP, and
replays them on request.

- `src/` is the verified library (Verus):
  - `memory` — alignment arithmetic, allocation layout checks, and the
    binary search for the largest allocation that succeeds;
  - `server` — the signal database (add, list, replay lookup, rename,
    delete) over a `hashbrown` map;
  - `ir` — sampling, cutting a recording to the signal's duration, replay
    levels and the text form of a signal;
  - `extractor` — request bodies as UTF-8 text and the answer to a
    rejected body;
  - `wifi` — the waiting and retry decisions of the Wi-Fi bring-up;
  - `http` — status codes.
- `tests/` exercises the library on concrete values.
- `app/` is the firmware around it: pins, timers, Wi-Fi, the HTTP routes
  and the executor tasks, for the ESP32 target.
