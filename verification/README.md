# wind_portable

The launcher of a portable input method for Windows: it finds the package that it lies in, starts
and stops the service, registers the text service library, updates the package from a ZIP archive
and copies it elsewhere, from a window, a tray icon or the command line.

The library under `src/` holds the rules and is verified with Verus. It takes what the system says
as plain values (which files exist, what the registry holds, which processes run, what the service
answered) and gives back results, plans, and single actions. What takes several steps is a small
state machine: `action` tells what to do next, `step` takes the reply.

| Module | Subject |
| --- | --- |
| `variant`, `layout` | the two builds, and where a package lies |
| `registration` | who is registered, what stands against portable mode, how to register and undo it |
| `service` | starting, stopping, updating; the package's markers and directories |
| `archive`, `deploy`, `replace`, `unpack` | ZIP archives, what is unpacked or copied where, and how a file is replaced |
| `rpc` | frames and requests on the control channel |
| `reg`, `process`, `singleton`, `dialog` | reading the answers of the system |
| `cli` | the command line |
| `ui`, `exit`, `wizard`, `icon` | what the window shows, how the launcher ends, and the steps before an update |
| `path`, `text`, `reply` | Windows paths, text, and replies to actions |

The program under `app/` does what the library decides: it reads and writes files and the registry,
runs processes, talks to the service and draws the window. The tests are under `tests/`.
