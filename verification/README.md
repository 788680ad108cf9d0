# paneru

The state of a tiling window manager, as snapshots: what is saved to restore the
layout after a restart, what clients query, and the tree that scripts transform.

`src/` is the verified library. It works on plain values.

- `platform`, `geometry`, `layout`, `world`: identifiers, rectangles, rows of
  columns, and the displays, applications and windows there are.
- `saved`, `saving`, `matching`: the saved state, how it is taken, and how a
  window is found in it again. `saved_laws` states what holds of every one.
- `spaces`, `desktop`, `query`, `windowset`, `params`: the state document and the
  window tree. Both need answers of the window server; the functions say which
  space to ask about next until all answers are there. `query_laws` states what
  holds of every document and tree, `agreement_laws` what holds between the two.
- `clock`: the time of a snapshot.
- `seqs`: sequences, ordered insertion and their laws.

`app/` is the daemon's side: the component store, the connection to the window
server, and the file. `tests/` runs the library on concrete desktops.
