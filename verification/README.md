# serial_debug_assistant

A serial port debugging assistant, as a plugin of a chat client. The library in
`src/` is written in Verus and proved against its contracts:

- `config`: the user's settings and the defaults they start from.
- `text`: decimal text of numbers, reading unsigned numbers as `from_str_radix` does.
- `codec`: hex and binary text to bytes (`hex_to_bytes`, `binary_to_bytes`).
- `display`: bytes shown as text, hex pairs or binary octets, and the proofs that the
  hex and binary text of any data reads back as that data.
- `error`: the error type, its messages and the error report for the front end.
- `client`: checking serial settings, the state of the connection and its counters.
- `assistant`: the settings panel's labels and edits, what a typed message becomes,
  and the settings used to connect to the chosen port.

`app/` is the plugin around it: the settings file (TOML), the asynchronous serial
port (tokio, tokio-serial) and the handlers of the host's plugin interface.
