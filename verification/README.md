# zervo

The window-free logic of the Zervo browser chrome, verified with Verus.

- `src/text.rs`: trimming titles to fit, the initial that stands in for a
  favicon, a page's display name, and what the address bar does with what
  was typed (load it, make it a `file://` URL, or search for it).
- `src/chrome.rs`: the navigation bar's items, what a revealed sidebar
  carries, which tabs can be reloaded, the address pill's badge, the
  notification bell's count, renaming a workspace, and the first-run setup: its words,
  its steps and the first workspace's name.
- `src/wallpaper.rs`: the new tab page's photograph: sources, subjects,
  cadences, the credit line and the clean-up of the text in it, and the
  fetch schedule as a state machine with its laws.
- `src/sources.rs`: what the fetch thread asks for and decides: feed and
  search addresses, which results are usable and in what order they are
  tried, how many days a picture of the day is looked for and what is
  reported when none is found, credits from metadata, the random day, and
  cache extensions.
- `src/chars.rs`: moving between strings and sequences of characters.
- `app/`: the network, JSON, image decoding, disk cache and floating-point
  paint helpers, around the library.

The browser's drawing code, widgets and macOS vibrancy are not part of this
crate: they depend on modules of the browser (settings, theme, tab state,
icons, downloads and others) and on crates (servo, winit, objc2, zervo_core)
that these sources do not include.
