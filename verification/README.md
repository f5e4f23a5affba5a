# esp_iot

Verified core of an ESP32 sensor node that serves a small configuration web
API, keeps automation rules for a relay, and posts sensor readings to a
server.

- `src/` is the library, verified with Verus:
  - `float_bits`: `f32` comparisons on bit patterns (readings and thresholds
    are held as `f32::to_bits`).
  - `rules`: the rule engine that decides the relay's state.
  - `shared`: the state that the web API and the rule engine share.
  - `server`: what each web API endpoint answers and how it changes the state.
  - `config_store`: the stored form of the Wi-Fi credentials.
  - `wifi`: the Wi-Fi bring-up sequence as a state machine.
  - `iot`: posting readings to the collecting server.
  - `text`: UTF-8 request bodies and the fixed-capacity string buffers.
- `app/` is the firmware around it: drivers, HTTP server and client, NVS.
- `tests/` run the library on concrete inputs.
