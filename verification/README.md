# kant

Concept and information modelling after the FDA rules, with end-to-end
encrypted live collaboration through a blind relay.

The library (`src/`) is verified with Verus: every public function carries a
contract over a mathematical view of its data, and the properties that tie
the operations together are stated and proved as proof functions.

## Layout

- `src/concepts.rs`, `src/concept_model.rs` — concepts, their validation and
  the concept diagram.
- `src/information_model.rs`, `src/class_graph.rs` — classes, attributes and
  multiplicities, and the class diagram, which never holds a relation to a
  node that is not on it.
- `src/model.rs` — the project: metadata, concepts, both models, and how a
  change received from another editor is applied.
- `src/concept_editor.rs`, `src/editor.rs`, `src/dialogs.rs`,
  `src/search.rs` — the editor's forms, dialogs, status texts and concept
  search.
- `src/workspace.rs` — the editing commands: what each does to the project
  and to the selection, whether the project is to be saved, and what is sent
  to the other participants.
- `src/edge_router.rs`, `src/routes.rs` — where relations attach to nodes
  (sides kept with hysteresis, slots spread along a side) and the drawn
  shape of each relation: right-angled paths, arrowheads, diamonds, label
  places and hops over crossings.
- `src/crypto.rs`, `src/ticket.rs`, `src/encoding.rs` — the session key,
  AES-256-GCM sealing of messages, and session tickets (`edge:v1:…`).
- `src/protocol.rs`, `src/network.rs`, `src/collab_session.rs` — framing,
  replay protection, the relay address, reconnect policy and the editor's
  session state.
- `src/relay.rs` — the relay's room registry: who receives a frame, what a
  late joiner is sent first, and when an empty room is forgotten.
- `app/` — the relay server binary (axum), the editor's WebSocket channel,
  project files on disk, and the serialised forms of the model.

Positions and sizes on the diagrams are whole canvas pixels, and routes are
drawn in eighths of a pixel; the editor's window, its zoom and panning, which
work in floating point, are not part of the library.
