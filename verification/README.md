# nebula_tui

The launcher of a terminal front end for coding agents: the sessions of a
project as a grid of cards, a pane that reads the session under the cursor, the
projects as tabs across the header, a prompt box with its pickers, and a guard
that spots a checkout mixing changes that have to ship apart.

`src/` is the library, written and proved in Verus. It holds what is listed, in
what order, where it is drawn and what a key or a click does to the state; it
reads no file, no clock and no terminal. What an event needs from outside comes
in with the state (`state::Facts`), and what it asks of the outside goes out as
a list (`state::Effect`).

| module | what it holds |
| --- | --- |
| `split_guard` | globs over paths, and the verdict on a change |
| `text`, `layout`, `order`, `views` | text, rectangles, the order of lists |
| `model`, `state` | projects, checkouts, sessions, launches; the launcher's state |
| `pane`, `grid` | how the screen is cut, and how cards are laid out and walked |
| `launcher` | the cards, the dropdown, the tabs, and where a launch lands |
| `folders`, `picker` | folders of repos; the project picker |
| `view` | what a frame draws: header, counts, cards, strips, box, picker |
| `keys` | what keys and clicks do: cards, tabs, strip, menus, box, picker |

Each function states what it returns or changes; the `law_*` proof functions
state what holds across several of them.

`app/` is the ordinary Rust around it: painting frames with ratatui, reading
crossterm's keys, running git, and carrying out what the library asks for.
