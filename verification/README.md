# dko-launcher

The launcher of Project KNOCKOUT. It is started by links on the project's website: it
keeps itself and the game's runtime up to date, makes sure that both are what the server
published, and starts Divine Knockout with a bridge that carries its packets to the other
players.

`src/` holds what the launcher decides and computes, with contracts that Verus proves:

| Modules | Subject |
| --- | --- |
| `links`, `arguments`, `web` | the links, the arguments of players, the server's URLs |
| `settings` | the values that a launcher is built with |
| `game_manifest`, `launcher_update`, `digest`, `install` | what the server publishes, and what is installed |
| `generations`, `launch` | the steps of an update, an installation, a setup and a launch |
| `upkeep` | the steps of choosing another game, and of checking that everything is ready |
| `p2p` | the bridge: its frames, its table of peers, its transport |
| `process`, `process_windows` | Steam's libraries, Proton, the game's process |
| `desktop`, `windows_setup`, `picker` | the desktop's settings, and the selection of the game |
| `windows`, `scenes`, `painting`, `graphics`, `dialog` | what the windows do, and what they show |
| `log`, `failure` | the log, and what is said about failures |
| `text`, `paths`, `windows_paths`, `wide` | strings, paths on Unix and on Windows, UTF-16 |

The steps of longer operations are machines: a function says which step follows on a
result, and the laws beside it say what holds on every way through.

`app/` performs the steps: it reads files, talks to the server, opens windows and starts
processes. The launcher looks for its logo and its font in `assets/` beside the executable.

`tests/` runs the library on concrete values.
