# moxnotify

The logic of a keyboard-driven notification daemon for Wayland, as a Verus library:
the functions in `src/` carry contracts that Verus proves, except the shared-mode cell
`AtomicMode`, whose value other threads may change and of which nothing is stated.

- `markup`, `body`, `links`: the Pango-like body markup, the style each piece of a body
  gets, and its links (`<a>` tags and web addresses in plain text).
- `notification`, `manager`: notifications as clients send them, and the list on
  screen (selection, scrolling, timers, inhibition, dismissal).
- `daemon`: the daemon's decisions, as a function from its state and an event to its
  next state and the actions to perform (emit a D-Bus signal, play a sound, store or
  trim the history, redraw).
- `repeat`: key repeat on the seat's keyboard, as a step from state and event to
  the next state and the timer and key actions to perform.
- `keymaps`, `buttons`, `config`, `color`, `cache`, `portal`, `ctl`, `alert`: key
  bindings and hints, style selection, colours, timeouts, caches, the portal's
  target detection, the control client's requests and the alert tool's settings.

`app/` is the control client: argument handling and D-Bus calls around the library.
