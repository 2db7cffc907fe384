# sulis

Verified logic of a turn based RPG's areas, dialogs and item widgets.

- `src/codec.rs`: the compact encodings of an area file (kinds tables,
  terrain, walls, layer positions, elevation) and their round trips.
- `src/area.rs`: an area checked against its module: props, layer set and
  path grids, transitions, triggers, encounters and sprites.
- `src/dialog.rs`: which responses a player sees, what choosing one does to
  the custom flags of both parties, and where the dialog goes.
- `src/item_button.rs`, `src/item_text.rs`: item buttons (clicks, menus,
  the item each shows) and the text arguments of an item's window,
  armor totals included.
- `src/area_widget.rs`, `src/script_menu.rs`: the text-mode area view, and
  script menus with the selection a click hands to the script.
- `src/text.rs`, `src/geometry.rs`: decimal text, named text arguments,
  points and sizes.
- `app/lib.rs`: serde glue for area files and error messages.
