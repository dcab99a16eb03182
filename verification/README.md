# footman

Footman turns one key, the Hyper Key (Caps Lock by default), into a prefix for
shortcuts: Hyper+C raises Chrome, Hyper+1 goes to the first virtual desktop,
Hyper+P runs a command. A tap of Hyper on its own can stand for Escape.

This crate is written in Verus. What Footman decides is in `src/` and proved
against its contract:

- `machine` — the Hyper state machine: which key events are swallowed, which
  pass, and which fire an Action; with its laws (an untouched Hyper is
  invisible, a held key fires once, only bound Chords fire, a tap fires the
  Tap Action).
- `keys`, `chord`, `action`, `table` — keys, Chords, Actions and the Binding
  table, with their names read and written the same way.
- `config`, `settings` — what a config file's structure means, what the
  settings form finds wrong, and that what is written is read back.
- `app`, `tray` — which window an App Action raises, and the tray's states.
- `windows` — the Windows shell's decisions: virtual-key codes, the hook's
  reading of an event, desktop positions and the strokes that walk between
  them, App Identities, the install paths, the logon task's definition, the
  hook watchdog's clock and what the hook thread does with each message, the
  steps of an install, what the Dispatcher does with an Effect, and what Save
  does with the settings form.

A config file looks like this:

```toml
[hyper]
key = "CapsLock"        # any key name
tap = "none"            # none | escape

[general]
autostart = false

[[binding]]
chord  = "C"
action = { type = "app", id = "aumid:Chrome" }

[[binding]]
chord  = "Shift+C"
action = { type = "app", id = 'path:C:\Program Files\Unity Hub\Unity Hub.exe' }

[[binding]]
chord  = "1"
action = { type = "desktop", index = 1 }

[[binding]]
chord  = "G"
action = { type = "open", target = "https://github.com" }

[[binding]]
chord  = "P"
action = { type = "run", command = "pnpm dev", show_window = false }
```

`app/` is the program around it: reading and writing the TOML file, the
installed copy and the logon task on disk. The Windows keyboard hook, tray,
settings window and Dispatcher, which call the operating system, are not part
of it.
