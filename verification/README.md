# deckery_auth

Controller-native authentication for the Steam Deck: `sudo`, polkit and the
lock screen accept a short PIN entered with the controller instead of a
keyboard password.

`src/` is the library, verified with Verus:

- `token` — buttons, modifiers, control actions, tokens, and their encoding
  into the credential string handed to PAM (`a`, `l2`, `L(a,b,x)`, ...).
- `credential` — proofs that the encoding is unambiguous, that it maps
  concatenation to concatenation, and that empty phrases and control
  actions contribute nothing.
- `reader` — the event decoder: raw key and D-Pad events in, tokens out.
- `reader_laws` — what the decoder guarantees over runs of events: a held
  modifier collects exactly the taps made while it is held, a press without
  a modifier is a simple press, control actions fire on press, the D-Pad
  fires once per move from the centre, released modifiers hold no taps.
- `entry` — how tokens edit the PIN being entered (backspace, confirm,
  cancel).
- `device` and `text` — recognising the controller by its device name;
  white space, trimming and substring search.
- `pin`, `argon` — new-PIN rules, Argon2id hashing of the PIN, checking a
  PIN against the stored hash, and the PAM module's answers; `argon` holds
  the calls into the `argon2` crate with what each is trusted to do.
- `pam_client` — decisions of the PAM smoke test.

`app/` holds the system glue: reading events from the evdev device, the PIN
setup tool, the PAM module, the PAM smoke test and the event printer. They
share one binary whose first argument picks the program (`deckery pin-set`,
`deckery input-test`, `deckery pam-test <service> <user> <pin>`,
`deckery polkit-agent`); the PAM module's entry points are compiled in with
them, and a PAM stack loads them from the same code built as a shared
library.

A stored PIN hash is the PHC string `$argon2id$v=19$m=65536,t=3,p=4$`,
a 22-character salt drawn from the operating system's generator, `$`, and
the 32-byte hash in Base64. A new PIN must match its confirmation, hold
something besides white space, and be at least 4 characters long. A stored
hash that records a lane count of nine or more digits is refused without
asking argon2, which accepts no lane count of 2^24 or more.
