# cosmic

Toolkit pieces of a desktop application framework, written in Verus with their
behaviour stated as contracts and proved.

- `src/shortcuts/`: key bindings an application stores in its configuration. A
  `Shortcuts` map keeps its bindings in binding order; a `ShortcutsConfig` layers the
  user's map over the shipped one. `laws.rs` holds the properties that span calls:
  what a reset restores, when a binding counts as changed, which entry decides a
  combination.
- `src/widget/`: the header bar (padding, height, caption buttons, pointer actions),
  the tab bar metrics, the text presets, and the menu key bind with its display text.
- `src/theme/`: which theme colours and radii a button takes in each state, for every
  class of button.
- `src/font.rs`: the font presets, and which weight a semibold request asks for.
- `src/app/`: window presets and their settings, the frame a client-drawn window puts
  around its content, and the About window.
- `src/keyboard.rs`, `src/strings.rs`: key input as plain values, and string helpers.

`app/` is ordinary Rust around the library: conversion from the windowing toolkit's
key and window types, the serde shape of the stored configuration, the header bar's
regions as a toolkit widget, and the float arithmetic of laying them out and of the
fixed colours.
