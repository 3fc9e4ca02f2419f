# back_ruban_led_connected

Gateway between a web front end and Bluetooth LED strips. An HTTP and
websocket server lists and scans Bluetooth devices, connects them over
RFCOMM, and relays text between websocket clients and the devices.

- `src/` — the verified library (Verus): the text command protocol spoken
  with the Bluetooth manager (`command`, on top of `text`), the websocket
  session registries (`sessions`, with `HashMap`s by session id and the
  association list `keyed` by device address),
  the device list, its filter and the connection retry budget (`device`),
  the scan state (`scan`), the coordination of device-list pollers
  (`poller`), the websocket frame decisions (`stream`) and the browser
  origin rule (`http`).
- `app/` — the server itself: actix actors and routes, the BlueZ calls,
  channels and threads. It hands the library plain values and acts on what
  the library decides.
- `tests/` — tests of the library on concrete values.

The server reads `APP_HOST`, `APP_PORT` and `APP_BASE_URL` from the
environment.
