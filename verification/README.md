# winrestyle

The logic of a desktop-shell replacement for Windows, verified with Verus, and
the ordinary Rust that runs it.

- `src/` is the library: every decision the programs take, with a contract.
  - `shell`, `shell_host`, `process`, `logon`, `autostart`: the registry swap and
    its rollback, the desktop-shell policy, and what a logon starts.
  - `watchdog`, `monitor`, `guardian`, `crash_loop`, `surfaces`: who supervises
    whom, when a child is started again, and how a recovery always gets through.
  - `ipc`, `config`: messages, colours and settings.
  - `manager`, `components`, `installer`: the apply and undo sequences, the
    manager window's model, layout and drawing, and the command line.
  - `taskbar`, `wallpaper`, `paint`: bar and menu geometry, window buttons, the
    notification area, the start menu, icons and drawing.
  - `text`, `number`, `paths`, `geometry`, `message`: what the rest is written in.
- `tests/` runs the library on concrete values.
- `app/` is the program round it: windows, the registry, pipes, processes and
  files. One executable serves as watchdog, shell, taskbar and installer, by its
  name.

Laws that relate several functions are public proof functions named `law_...`,
beside the functions they speak of.
