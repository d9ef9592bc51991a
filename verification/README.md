# soldank

The game logic of a Soldat-like shooter, written in Verus and proved
against its contracts.

Library modules (`src/`):

- `messages`: the network protocol: operation codes, the binary layout of
  every message, encoding and decoding (decoding an encoded message gives
  it back), and the connection handshake.
- `server`: what the server decides: answering packets, authorizing
  clients, the lobby, queuing control input by tick, and the packets that
  the simulation sends out.
- `networking`: traffic counters, peer addresses, network settings.
- `mapfile`: reading PMS map files.
- `render`, `spritesheet`, `binpack`: colours, pixel buffers, the map's
  draw layers and packing sprites onto texture sheets.
- `anims`, `animfile`: animation tables, playback, and reading animation
  files.
- `weapons`, `control`, `game`, `debug`: weapon characteristics, player
  controls, small game types and the debug overlay's state.
- `parts`: which parts of a soldier show, from its weapons, gear and state.
- `physics`: the bookkeeping between entities and the physics pipeline.
- `world`: an entity world that knows which component types it can clone.

`app/` is the dedicated server program around the library: its socket,
files and main loop. `tests/` exercises the library.
