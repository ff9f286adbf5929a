# koala_desktop

The view logic of the Koala TV desktop client, written in Verus and
verified: what the player, its overlays, the schedule view, the chat and
the sidebar decide, stated as contracts over mathematical models.

- `src/` — the verified library. Each module holds one view's state and
  the functions that change it; X11 windows, the GUI toolkit, mpv and the
  network stay with the caller, which hands in plain values (positions,
  times, measured text widths, server answers) and gets back what to do.
  - `player` — the playback state machine polled every tick (loading
    screen, first frames, auto-advance, swaps between the main and the
    backup player), the channel switch through the memory cache, the
    controls and the layout of the video area.
  - `memory_cache`, `backup_player`, `player_tracks`, `player_util`,
    `player_widgets` — the parked channels, the backup player's load
    decisions, subtitle / audio / quality menus, watch URLs and the
    publication tooltip, the volume fade.
  - `popup_menu`, `tooltip`, `loading_overlay`, `channel_badge`,
    `xft_text`, `icons` — the overlay windows' state and geometry, the
    badge's avatar pixels, the icon cache and PNG encoding.
  - `planning` — the programme grid: the schedule computed from a
    playlist's cycle, the block layout, the week navigation.
  - `chat`, `emoji_input`, `gif_picker`, `sidebar`, `auth`,
    `settings_modal`, `remote_modal` — the side panels.
  - `text`, `clock` — string helpers shared by the modules, and the
    wall clock read one std call at a time.
- `tests/` — tests run against the compiled library.
- `app/` — the unverified desktop side: X11 windows, Xft text, SVG
  rasterisation, local time, logging and file-system access, each driven
  by the library's decisions.

Laws that relate several calls are public proof functions named `law_*`.
