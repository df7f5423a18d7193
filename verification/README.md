# hdr_game_switcher

A Windows utility that turns on HDR and the console mode of an Alienware
AW2725D monitor while a configured game runs, and turns them off after the
last configured game has closed.

`src/` is the verified library: the program's state, its rules and its
decisions, and the data it exchanges with Windows.

- `state`: the shared state (running configured games, display mode, status
  message) and what happens when a process starts or stops; the display is
  switched only when the number of running configured games crosses zero.
- `config`: the saved settings, how games are added, removed and labelled,
  and how the startup choice is applied.
- `display`: which monitor is switched, the console-mode write-and-check
  steps, the order of a mode change and what follows a failed step, the HDR
  request per display path, and the display error messages.
- `path`: how a Windows path yields its file name and extension.
- `text`: ASCII case-insensitive comparison and decimal formatting.
- `wide`: UTF-16 encoding and decoding for the Windows interfaces.
- `shell`: shortcut targets, process image paths, the logon task's command
  line, the relaunch with administrator rights and the tray icon.

`app/` is the Windows program around it: the window, the tray icon, the
process watchers, the display and shell calls, and the settings file.
