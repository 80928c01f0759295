# concat

The state of a video and picture studio as a library whose behaviour is stated
in contracts and proved by Verus.

- `src/cloud`: the client of the generation service. Answers (`client`), actions
  (`actions`, `personal_actions`) and failures (`failures`) are functions from
  the state of the client to its next state and the steps that the program
  around it takes. `calls` leads a request through what is done for it.
  `preview_validation` checks a client that is never signed in.
- `src/panes/canvas`: the layered canvas, with its tree, its stored pixels, its
  history and its packages; `src/panes/export`: the export sheet.
- `src/cloud_files`, `src/urls`: which addresses files come from and go to.
- `src/generation_templates`, `src/format`: templates, times and colours.
- `src/json`, `src/text`, `src/paths`, `src/sort`, `src/lists`,
  `src/collections`: what the rest is written with.

Numbers that a window shows as fractions (places, opacities, curves) are kept in
millionths. Paths have `/` between their parts.

What a canvas promises as a whole is stated by itself: `recall` says that what
is undone comes back, `apart` that no two layers get the same identity, `moves`
where a dropped row goes, `edits` which layer follows a deleted one.

`app` is the program around the library: files, the network and the machine's
calendar. `tests` runs the library.
