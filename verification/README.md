# oc-history

A terminal browser for the session history of an opencode server: a list of
sessions, a viewer that renders a conversation in ledger style, search, live
updates of the open session, deletion, and exports as ledger text, plain text
or markdown.

## Layout

- `src/` is the library, verified with Verus.
  - `opencode/` — the endpoint's data model (`models`), the decisions taken on
    its replies and its addresses (`client`), the paged session listing with
    its cursor walk (`listing`), the view of a session's raw
    message parts (`content`), the ordering, totals and batching of the session
    list (`loader`), and the event-stream protocol with its reconnect policy
    (`sse`).
  - `history/` — conversations as the list shows them, and the first
    meaningful display text of each session in a history log (`global_log`).
  - `tui/` — the renderer (`viewer`), the exporters (`export`), the editing of
    the search line (`query`), the merging of queued search commands
    (`search_queue`), the viewer's scroll, focus and search state
    (`view_state`), and the interface's state machine (`app`): every key,
    click, loader message and stream event is a transition with a contract,
    and each transition keeps the state's well-formedness.
  - `text.rs` — string helpers stated over `Seq<char>`.
- `tests/` — tests of the library.
- `app/` — the program around the library: command line, HTTP requests,
  background threads, the terminal loop and drawing, the clipboard and the
  pager. It hands the library plain values and carries out what it asks for.
