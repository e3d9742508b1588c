# hearthcoach_harness

A Hearthstone Battlegrounds match recorder and coaching toolkit whose logic is
proved with Verus.

The harness reads the client's `Power.log` line by line, keeps the entity
facts it declares, projects them into the local player's board, hand, shop,
hero and lobby, and archives each round: the recruit phase with its actions
and numbered shop revisions, the combat with its result and damage, and every
choice with its options. The coach side turns that state into the facts a
strategic planner works from, checks the planner's replies against them, and
keeps the bookkeeping of planner tasks, chat and the local install.

## Layout

- `src/` — the verified library.
  - `harness/` — log routing and parsing (`power`, `choice`, `router`), the
    entity fact store and its projection (`state`), the match runtime
    (`runtime`), the archive and its Markdown report, the card catalog, the
    Power.log monitor's text rules, and the reading of HearthMirror's tribe
    query.
  - `demo/` — the coach: its state machine (`coach.rs`: each runtime event,
    ranking result or chat message to the next state and the work to do),
    agent snapshots and replan detection, planner data
    and policy corrections, reply grounding and prompt shaping, the knowledge
    base, the task ledger, `log.config` repair and environment reports, and
    the text helpers of the overlay and control panel.
  - `text.rs`, `maps.rs`, `debug_fmt.rs` — verified text, map and
    formatting helpers shared by the modules.
- `tests/` — tests run against the compiled library.
- `app/` — the `hearthcoach` command line: file and process I/O, the live
  log watcher, JSON files, and the floating-point planner scores.

Each public function states its result in `ensures`. Where the result rests
on a clock reading (the shop's quiet period, the turn countdown, task
timestamps), a verified function takes the reading as an argument and states
the result exactly, and the function that reads the clock states what holds
for every reading. The library's laws that span functions are public proof
functions named `lemma_*`.
