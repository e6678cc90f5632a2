# bluetooth

Bluetooth transports for an application: scanning for devices, connecting to one, sending to it
and listening to it, over the classic serial port profile or over low energy.

`src/` is the library, written and proved in Verus. It decides what happens and touches no radio:
each operation is a machine whose state is the step that is due. A driver performs that step and
hands back the answer.

- `address`: device addresses and the key by which two of them name the same device
- `ble`: devices, services, characteristics and identifiers as plain values
- `btinterface`: errors, kinds of transport and reported devices
- `device_table`: the devices that a scan has found
- `driver`: the answers to a step
- `stdimp`: the operations, one module each, and in `laws`, `radio_laws` and `scan_laws` what
  holds of them as a whole
- `text`: texts as sequences of characters

`app/` is the driver: it talks to the radio, to the classic transport and to the runtime.
`tests/` runs the library.
