# cc-hub

The core of a terminal hub for coding-agent sessions, written and verified in
Verus: what every screen shows and where, and which task of a backlog is started
next.

Every function takes plain values and returns plain values. A contract says
which lines, styles and rectangles come back, and the laws that hold of several
functions together are proof functions beside them.

Two things are left open, each with a word in the place where it is. What a
clock shows follows from its offset from UTC, and that is the machine's: a
function that reads it says that there is such an offset, and a function beside
it takes the offset and is exact. The same holds of the user's home.

## Layout

- `src/text.rs`, `src/parts.rs`, `src/style.rs`, `src/palette.rs`: texts, lines
  and colours with their views.
- `src/rounding.rs`, `src/geometry.rs`, `src/wrap.rs`, `src/ordering.rs`:
  rounded ratios, rectangles, word wrap and stable sorting.
- `src/models.rs`, `src/common.rs`: sessions and the small parts that the
  screens share.
- `src/screen.rs`: tab strip, title bar and status bar.
- `src/sessions.rs`, `src/session_grid.rs`, `src/session_popup.rs`,
  `src/state_debug.rs`, `src/live_tail.rs`: sessions.
- `src/tasks.rs`, `src/task_cards.rs`, `src/board.rs`, `src/chips.rs`,
  `src/backlog.rs`, `src/result_popup.rs`, `src/artifacts.rs`, `src/diff.rs`:
  projects, their tasks and what these leave behind.
- `src/agents.rs`, `src/agent_detail.rs`, `src/builds.rs`, `src/metrics.rs`:
  the other tabs.
- `src/dialogs.rs`, `src/pickers.rs`, `src/todo_panel.rs`: what lies on top of
  a tab.
- `src/triage.rs`: the triage of the backlog, as a state machine.
- `app/`: drawing with ratatui, files, images, prices and the triage loop.
- `tests/`: tests of the library, most of them on a drawn screen.

Calls into other crates stand behind small trusted functions. Each says in its
doc comment which function it calls and what is taken on trust.
