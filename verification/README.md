# teetotum_core

The decisions of a round touch knob, written in Rust and verified with Verus: what its screens
say, how its menus are laid out, which plugin runs, how an upload goes into a slot, what the card,
the radio and the other chip are told, and what the bench instruments conclude from what they read.

`src/` computes. Each function takes plain values and its contract says what it returns for every
one of them; what spans several calls is stated as a public proof function beside them. Work that
alternates with the hardware is a state and its events: a function names the next thing to do, the
program does it and hands back how it went.

`app/` is the program around it: pins, buses, the radio and its tasks, the flash, the card, and the
drawing. `TEETOTUM_INSTRUMENT` selects a bench instrument in place of the firmware. The bundled
plugins and test pictures are read from `assets/` at build time, and `app/prepare.rs` packs the codes of
the links and names the build.

| Modules | |
| --- | --- |
| `overview`, `screens`, `player`, `text`, `pictures`, `cover` | what is shown |
| `menu`, `device`, `faces`, `plugins`, `upload` | what a turn, a press, a tap or a command does |
| `radio`, `link`, `remote` | Bluetooth, Wi-Fi and the wire to the other chip |
| `storage`, `fatcheck`, `cardread`, `cardwrite`, `cardpins`, `record`, `slots` | card and flash |
| `pixels`, `bands`, `frames`, `scene`, `dial`, `digits`, `cloud`, `qr`, `backlight` | the panel |
| `motor`, `wiring`, `quadrature`, `tone`, `memory`, `reach` | the rest of the board |

Four items are taken on trust, each with its contract where it stands: encoding and decoding the
structures of an advertisement (`radio`, by trouble-host), UTF-8 (`text`, by std) and the integer
square root (`player`, by std).
