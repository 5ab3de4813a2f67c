# herdr-dwm-layout

A DWM-style master/stack layout plugin for Herdr. One or more panes form the
master area; the others share the stack. The layout is rebuilt by moving the
live panes (never recreating them) through a temporary `dwm-staging` tab.

## Layout

- `src/` — the verified library (Verus):
  - `json.rs` — JSON values as the socket carries them, and member lookup;
  - `reply.rs` — typed replies, the BSP layout's pane order, and the errors;
  - `tab.rs` — one tab's settings (orientation, master count, master share
    in millionths) and the rules that change them;
  - `state.rs` — the saved state, one entry per managed tab;
  - `decide.rs` — the focused pane, which panes to swap, what an event asks;
  - `reflow.rs` — the moves that rebuild a tab, with the laws they obey;
  - `request.rs` — the requests sent to Herdr, their encoding, and how
    replies are matched;
  - `session.rs` — an action as a sequence of requests, one reply at a time.
- `app/main.rs` — the plugin binary: arguments, the Unix socket, the locked
  state file, JSON encoding, and the loop that runs a session.
- `tests/` — scenarios run against canned replies.

Every action is a `Session`: `Session::start` gives the first step, and each
reply handed to `Session::resume` gives the next, until the action is `Done`
(the state is saved), `Failed` or `Aborted`. The plugin's state changes only
when an action is done; a failed or aborted action hands back the state it
was given.

## Modelling choices

- The master-area share is a fraction of the tab held in millionths of the
  tab, and its changes are exact decimal sums rounded to whole hundredths,
  halves upwards. The binary reads and writes it as a decimal fraction;
  finer values than millionths are rounded when read. Where the sum is a
  tie in decimal but not in binary floating point (0.285, say), the result
  can differ from a computation on `f64` by one hundredth.
- The saved state is a `Vec` of entries with unique tab ids, modelled as a
  map, rather than a `BTreeMap<String, _>`: in vstd's `BTreeMap`
  specifications (`std_specs/btree.rs`) the postconditions of `insert`,
  `get`, `remove` and the other keyed operations are guarded by
  `obeys_cmp::<Key>()`, which vstd's `laws_cmp.rs` establishes for the
  integer types (and tuples, references and options of them) but not for
  `String`, so no lookup or insert by tab id could be proved. The binary's state file
  still holds a sorted map.
- Every action holds each share within 0.10..=0.90: the changes clamp and
  round it, and `reflow-tab` clamps the share it is given.
- Changing the master count adds in `i64` with wrap-around, as a release
  build of the original does.

