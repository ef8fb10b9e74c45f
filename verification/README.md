# Button Automation

The logic of a desktop program that picks a button in a web page and clicks it again and again.
When the program starts it opens a target page (Google by default). The user starts the inspector,
picks a button in the target page, sets an interval and starts clicking; the control window shows
what the controller in the target page reports.

- `src/` is the library, verified with Verus: the state and its log, the commands of the control
  window, the reassembly of chunked reports, the navigation bridge, the local HTTP endpoint, URL
  normalization, and the text of the controller script.
- `app/` is the program around it: Tauri windows and commands, the TCP listener, and the types that
  are read from and written to JSON. It embeds `node_modules/html2canvas/dist/html2canvas.min.js`.
- `tests/` runs the library.

A command of the control window is run as a small state machine: `RuntimeState::begin` and
`RuntimeState::resume` say what is to be done next, and the program does it.
