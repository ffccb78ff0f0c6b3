# herdr-mirror

Mirrors the workspaces and agents of remote herdr servers into the local
sidebar. This is its verified core, with the program around it.

- `src/` is a Verus library. Every function that is proved has a contract, and
  what holds across functions stands as `law_...` proof functions. A few
  declarations say what is trusted of code outside the library; three of them, on
  the clock, claim nothing of what it reads.
- `app/` is the program: environment, files, signals, tasks. What it does next
  is decided by the library. It is written against `ServerSide`, which stands for
  the API of a server, the configuration file and the passes that reconcile
  mirrors; the binary built from `main.rs` alone has none of these and refuses
  what needs them.
- `tests/` runs the library.

## The library

| module | what it is about |
| --- | --- |
| `text`, `paths`, `clock`, `json`, `idmap`, `shared`, `width` | characters, Unix paths, dates, JSON values, ordered maps, shared strings, display widths |
| `escape`, `screen`, `grid` | escape sequences, the model of a frame, and the cell grid that decodes it |
| `render` | the renderer that paints a window of the grid |
| `frame_laws`, `paint_laws` | what the decoder and the renderer promise |
| `state`, `restore`, `file_laws` | the id map of a host, tombstones, markers and notices, and what their files promise |
| `subscription`, `sync`, `connection`, `sync_laws` | subscriptions, the sync loop of a connected host, and what it promises |
| `transport` | the remembered transport and the reconnect ladder |
| `streamer` | which panes run a streamer, and which ones to heal |
| `daemon`, `start_laws`, `status`, `command` | lifecycle decisions, what racing starts promise, reports, the command line |
| `env`, `socket`, `util` | directories, the local socket, log lines, pidfiles, deadlines |

Strings are modelled by the sequence of their characters. A terminal is modelled
as a grid that reads what is written to it: `law_a_paint_shows_the_window` says
that after a paint it shows the cells of the window.
