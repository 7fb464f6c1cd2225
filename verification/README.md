# ezshot

ezshot is a Windows tray screenshot tool: region, active-window, picked-window
and full-screen captures with an optional countdown, and a tabbed editor for
pen, arrow, rectangle, text and crop annotations with undo, copy and save.

The project is split in two:

- `src/` is the library, verified with Verus. It holds every decision the
  program makes, each with a contract: the capture state machine (`app`),
  tray commands and menus (`tray`), hotkeys, languages and themes, the
  settings file (`settings`), capture geometry and overlay pixels
  (`capture`), the editor's tabs, scrolling, toolbar, colour parsing and
  mouse handling (`editor::window`), the canvas with its stroke and crop
  history (`editor::canvas`), and the pixel conversions used for the
  clipboard and image files (`output`, `icon`, `menu_icon`). Laws that span
  several calls, such as undo after a crop or the settings round trip, are
  public proof functions beside the code they speak of.
- `app/` is the Windows program around it: the message loops, GDI drawing,
  dialogs, the registry, files under `%APPDATA%\ezshot`, the clipboard and
  image encoding. It calls the library for every decision and performs the
  I/O the library asks for.

`tests/` runs the library on concrete values.
