# idasen

A controller for motorised sit-stand desks of the Idasen kind, over Bluetooth Low
Energy. The logic is a library whose contracts are proved with Verus; the program
around it does the talking.

## The library (`src/`)

| module | what it is about |
| --- | --- |
| `rounding` | rounding to 53 significant bits, on integers |
| `binary64` | doubles as bit patterns, and their values in ticks of 2^-66 |
| `height` | heights and speeds: decoding, limits, tolerance, the number of a target |
| `error` | what can go wrong, in words |
| `wire` | characteristics, commands and readings as bytes |
| `motion`, `motion_laws` | waking, reading, stopping and moving a connected desk |
| `connect` | finding a known desk and connecting to it |
| `discover` | looking for an unknown desk |
| `config` | the desk to use and the named heights |
| `session`, `session_laws` | carrying out a command from start to exit |
| `words` | what the user reads |

The state machines (`motion`, `connect`, `discover`, `session`) are described twice:
once as executable code and once as a mathematical transition function, to which the
contract of the code equates it. The laws speak of runs of that function.

Four functions are trusted, not proved: `read_u16`, `read_i16` and `write_u16` in
`wire` call the crate `byteorder`, and `uuid_text` in `error` calls the crate `uuid`.

## The program (`app/`)

`main.rs` reads the command line and prints, `store.rs` keeps the configuration as
YAML, and `radio.rs` performs what the state machines ask for.

## The tests (`tests/`)

They run the library on concrete values. The arithmetic is compared with that of the
machine, for every number that a desk can report.
