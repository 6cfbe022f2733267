# transcodarr

Transcoding for a media library, with a proof that the library survives it.

`src/` is the library: what is decided about a file, a machine or an install.
Every function carries a contract that Verus proves. `app/` is the program
around it: processes, files, the network. `tests/` exercises the library from
outside.

| Concern | Modules |
| --- | --- |
| What a file is | `probe`, `facts`, `file` |
| What to do with it | `policy`, `preset`, `plan`, `job` |
| Where it can run | `capability`, `survey`, `probe_samples`, `probe_caps`, `preflight` |
| Whether an output is good | `executor`, `validate`, `failure` |
| Replacing the original | `journal`, `workarea`, `commit` |
| Talking to a server | `pb`, `convert`, `message`, `handshake`, `client`, `worker`, `identity`, `run` |
| The command line | `cli` |
| Groundwork | `text`, `paths`, `document`, `double`, `names`, `pairs`, `error` |

Work that waits on the world is a state machine: it says what to do next, takes
in what came of it, and says what follows. The install is one of them. At every
instant, whatever fails and wherever a crash falls, the original is intact or
the replacement is in place; `commit` states this and proves it.

Public proof functions named `law_…` state what holds across functions.

Measured numbers are double-precision. `double` holds them as their bits and
computes with them in integers, so that a quotient and the decimals it prints as
are proved too. Reading such a number from a text and spelling it in full are
left to `app/`.

What is not proved is what other code computes: the BLAKE3 digest and JSON text
in `document` and `executor`, the debug form and the lowercase form of a text,
and whether a text can stand in request metadata in `client`. Each such function
says what is believed of the code behind it.
