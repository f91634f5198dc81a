# oxicord_ui

The presentation logic of a terminal Discord client, written in Verus and
proved against its contracts: key bindings and their parsing, text editing in
the login field and the message input, the guilds tree, the message list and
its scrolling, the quick switcher, what it offers before anything is typed and its ordering,
which channels a guild shows given their view permissions, the chat screen's focus,
overlays, key dispatch, channel selection, message actions, arriving messages and
read states, forum pages and mentioned channels, restoring the last place,
the handling of what the backend sends back (loaded messages acknowledged and
marked read, failures shown, pending read states laid over loaded ones), the footer and header bars, text wrapping and truncation, and
the layout of headers, embeds and popups.

- `src/` is the verified library. Calls into outside crates (display widths,
  emoji removal, channel mention matching, local time, color names, the text
  area widget, durations) go through a few
  small trusted wrappers whose contracts say what those crates do.
- `tests/` runs the library on concrete values.
- `app/` is the terminal glue: conversions to and from the terminal crates'
  types, event polling, color themes, and drawing.
