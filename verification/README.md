# stt_service

A speech-to-text server. Clients stream 16 kHz mono audio to it over TCP and get the text back.
Each stream has an identifier of its own, and must be set up before audio is sent to it. A
connection is closed once a transcription has been sent on it.

- `src/` is the library: framing, messages, the course of a connection, the streams and what is
  transcribed of them, the text of a transcription, and how the process is set up. Verus proves
  every function of it against its contract. Proof functions whose names start with `law_` state
  what holds of the library as a whole.
- `app/` is the program around it: sockets, timers, logging, and the model. It performs what the
  library decides.
- `tests/` runs the library on concrete values.

A message travels as four magic bytes, the length of its payload as eight bytes (most significant
first), and the payload in MessagePack. A client that sends anything else is told so.
Every five seconds a connection that is quiet then gets a status message; if the server is
shutting down by that time, the client is told so and the connection is closed. The process does
not wait for this: an interrupt ends it.
