# rift

The decisions of a tiling window manager for macOS, written and proved in Verus.

The library holds what the window manager decides: which windows are managed, where they go, which
one has the focus, what follows from an event, and what clients are told. It reads no screen and
calls no system interface. What the system says comes in as plain values, and what is to be done
goes out as steps.

The reactor takes an event in two calls. `Reactor::handle_event` takes over what the event says and
returns what the layout engine is told and what is left to do. Once that is done,
`Reactor::complete_event` lays out the screens, if they are to be, and says whether other windows
are to be watched. The contracts of both say for every event what changes and what does not.

- `src/` is the library. `reactor/` holds the state of windows, spaces and drags and the handlers of
  events; `spaces/` follows displays and their spaces; `app.rs` keeps the record of one application's
  windows; `protocol/` is what clients and server exchange. The other modules each belong to one
  part of the screen or one source of input.
- `tests/` runs the library on concrete values.
- `app/` is the command line, the loops that run the library, the geometry and the wire format.

Coordinates are carried as the bits of floating-point numbers. Comparing and combining them is left
to the caller, who passes the outcome.
