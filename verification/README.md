# HideDesktopApps

A Windows tray utility that hides and shows the desktop icons, the taskbar
and the open application windows, on global hotkeys, from the tray menu, or
through named profiles.

## Layout

- `src/` is the `hide_desktop_apps` library, written and proved with Verus:
  the configuration and its legacy `config.ini` reader, hotkey parsing and
  the hotkey editor, profiles and what applying or restoring them changes,
  the main loop's decisions (debounce, menu commands, toggles, update
  schedule), the tray icon's pixels and tooltip, the Discord presence texts,
  frames and connection state machine, toast texts, the logon-task scripts,
  the updater's release, archive and hash checks, the window filter, and
  the settings window's model.
- `app/` is the program around it: Win32 calls, the tray, hotkey
  registration, files, the network, the Discord pipe, and the settings
  window's drawing. It carries out what the library decides.
- `tests/` exercises the library on concrete values.
