# openab_core

The decision-making core of a chat bot that connects coding agents, spoken to over ACP (JSON-RPC
on the standard streams of a child process), with chat platforms and Discord voice channels. The
library is written in Verus: its functions carry contracts that the verifier proves. What it takes
on trust are seven small wrappers (SHA-256, lower case of a character and of a string, the text of
a UUID, a new random UUID, parsing and writing JSON), the two conversions between JSON values that
the last two use, and the specifications of three methods of the standard library (`String::push`,
and `hash` of `String` and of `Option`); each says so where it stands.

`src/` performs no I/O. Messages, clocks, timers and processes appear as plain values: a step takes
an event and returns what is to be done, and the outcome comes back as a further event.

| Module | What it decides |
| --- | --- |
| `acp` | the state of an agent connection, permission answers, the agent's environment |
| `acp_turn`, `acp_turn_driver` | one prompt turn from its first event to the delivery of its answer |
| `adapter` | how messages of a platform are packed, keyed and answered |
| `discord_voice` | segmenting captured PCM, WAV encoding, the bounded transcript |
| `discord_voice_speech`, `tts` | synthesized speech: requests, limits, WAV decoding |
| `discord_voice_intent` | spoken commands: parsing, confirmation, at most one dispatch |
| `discord_voice_interpreter` | requests to and decisions of the dialogue model |
| `discord_voice_runtime` | voice sessions of a guild, from joining to the rendered transcript |
| `redact` | identifiers in logs |
| `ids` | random ids |
| `text`, `bytes`, `json` | characters, bytes and JSON values as plain data |

`app/` is the running side: processes, HTTP, chat platforms, timers and voice calls.
`tests/` runs the library on concrete values.
