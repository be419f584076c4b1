# cardputer_rust

The logic of a small handheld network terminal (an ESP32-S3 board with a
keyboard matrix, an LCD, a Wi-Fi radio and an audio codec), written in
Verus and proved against its contracts.

- `src/` — the verified library:
  - `keyboard` — key matrix coordinates, key map and Shift layer;
  - `editor` — the line editor: cursor, wrapping, backspace across lines,
    message buffer;
  - `terminal` — decisions of the input loop: key presses and releases,
    key repetition, cursor blink, requests (send, scan, address, tone,
    recording);
  - `net` — GET and POST request framing, truncating copies, body extraction and
    the streaming body receiver;
  - `exchange` — the steps of an HTTP exchange: the whole request is
    written before flushing, and the response kept is the start of what
    was received;
  - `link` — joining Wi-Fi: retries, then the access point list and
    offline operation;
  - `audio` — I2S slot conversion, the recording buffer, statistics, PCM
    encoding and decoding, the test tone;
  - `codec` — the codec's microphone start-up program;
  - `ui` — fixed-size text lines, decimal numbers, the access point list,
    the start-up greeting;
  - `config` — request paths.
- `app/` — the firmware around it: hardware set-up, sockets, drawing and
  the async input loop.
- `tests/` — tests of the library on concrete values.
