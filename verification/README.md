# boss

A Matter bridge for Home Assistant MQTT-discovery devices (ESPHome switches).
It subscribes to Home Assistant discovery topics and exposes each discovered
device as a Matter accessory. Both directions are wired: controller commands
publish to the device's MQTT command topic, and MQTT state updates reflect back
into Matter.

The logic is a library verified with [Verus](https://github.com/verus-lang/verus);
the program around it does the I/O.

## Layout

- `src/`: the library. Every function states what it does in `requires` /
  `ensures`; the `law_*` proof functions state what holds across functions.
  - `config`: command-line configuration.
  - `discovery`: discovery topics and what they announce.
  - `mqtt`: how to connect, and what to do about each event on the connection.
  - `router`: where each incoming message goes.
  - `bridge`: the device pool. `model` is its state as mathematics, `laws` what
    holds of it; `node`, `bridged`, `switch` and `routes` are its parts.
  - `web`: the contents of the status page, the QR code as SVG, the HTTP reply.
  - `mdns`: which network interface the mDNS responder uses.
  - `error`, `text`: the error type, and text and numerals.
- `tests/`: tests of the library.
- `app/`: the program. It reads arguments, talks to the broker, decodes JSON,
  serves the status page, and runs the Matter stack (`rs-matter`). Compiled
  with `--cfg 'feature="avahi"'` or `--cfg 'feature="astro-dnssd"'` it uses that
  mDNS backend, and otherwise the built-in responder.

## How the parts work together

The library never blocks and does no I/O. Where something has to happen outside
in the middle of an operation, the library returns the step to take, and is
told the outcome: `Bridge::add_switch` names the topic to subscribe to, and
`Bridge::state_subscribed` takes what came of it.

## Known limitations

- `StartUpOnOff` is in-memory only (not persisted across restarts).
- Switches only.
