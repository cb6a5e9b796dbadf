# codex-mic

Dictation at the cursor: hold a key, speak, let go, and the text is typed. The audio goes to a
realtime session under the login that `codex login` leaves behind.

`src/` is the verified library: the rules of the program, as functions from plain values to plain
values with a proved contract.

| module | what it decides |
|:--|:--|
| `keystate` | the life of a recording: one machine for whatever starts or stops one |
| `lifecycle` | hotkey events, the start, the stream and the end of a dictation, and what the user is told |
| `dictate` | collecting a transcript, when it has settled, the hallucination filter, sanitizing |
| `realtime` | models and settings of a session, the messages to it, the meaning of its events, connecting |
| `auth` | reading a login, judging its token, what comes of a refresh |
| `jsonrpc`, `codex` | the line protocol of `codex app-server` and a session of it |
| `audio`, `pcm`, `g711`, `config` | recordings, the input device, samples, mu-law, levels, settings |
| `winkeys`, `error` | keyboard state, error messages |
| `text`, `json`, `encoding` | text, JSON documents, base64 |

`app/` is the program around it: the window, the hotkeys, the microphone, the socket, files and the
keyboard. What works on floating point (gain, downmix, interpolation) is there too, and so is what
the hotkey plugin and `serde` read: the text of a hotkey and the settings file.

Times are milliseconds throughout, and the library never looks at a clock, a file or the
environment: it is told.

Some things are trusted and not proved. They stand in `json`, `encoding`, `auth` and `text`, each
with a comment that says what is believed of it: what `serde_json` reads and writes, what `base64`
encodes and decodes, how `time` writes a date, and what two functions of the standard library do.
