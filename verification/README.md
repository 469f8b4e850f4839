# portpub

port.pub shares a local HTTP server with the public internet. A client connects
to a relay and is given a subdomain. The relay keeps every visitor of that
subdomain waiting under an identifier and tells the client, which opens a tunnel
from the visitor to the local server.

`src/` is the logic, verified with Verus:

- `host`: which subdomain a request asks for.
- `message`: the messages between relay and client, and the frames that carry
  them.
- `random`, `ident`: random names and identifiers.
- `registry`: the maps of the streams that the relay keeps.
- `server`: how the relay serves a connection, step by step.
- `session`: the client's conversation with the relay, and its tunnels.
- `http`: what is noted of the HTTP traffic through a tunnel.
- `requests`, `screen`: the list of requests, and what is shown of it.
- `app`: the command line, the turns of the program, the keys and the clipboard.
- `text`: characters, lines and numbers.

The public proof functions whose names start with `law_` state what holds of the
library as a whole, such as that a published name leads to its client
(`server::law_published_name_reaches_its_client`), that the client keeps that name
(`server::law_client_keeps_its_name`) and that a stream gives back
the frames that were written to it (`message::law_frames_keep_their_order`).

`app/` holds the programs around it: sockets, JSON, the terminal and the
clipboard. `tests/` holds the tests of the library.
