# nfc-wedge

An NFC keyboard wedge: it reads the NDEF Text record of a Type 2 tag (NTAG213/215/216)
on a PC/SC reader and types the text into the active window.

- `src/` is the library, verified with Verus: APDU framing and responses (`nfc::apdu`),
  Type 2 tag memory reading and TLV parsing (`nfc::tag`), NDEF Text extraction and the
  raw-text fallback (`nfc::ndef`), reader names (`nfc::pcsc`), the decisions of the
  polling loop and of card connection (`nfc`), duplicate-read suppression
  (`single_shot`), the log ring buffer (`log_buffer`), translations (`i18n`), settings
  (`config`), start on login (`auto_start`), the status line (`ui`) and the typing
  steps (`wedge`).
- `app/` is the program around it: the PC/SC calls, threads and channels, the settings
  file, logging, the window, the tray icon and keyboard simulation.
- `tests/` runs the library on concrete inputs.
