# winbar

A minimal native bar for Windows: workspaces of komorebi, the title of the
window in front, a clock, the volume, and an app search on `Alt+Space`.

The bar is split in two. `src/` is a library that is verified with Verus. It
decides what a window message asks for, what is drawn where, which apps the
search lists and in what order, how uses of apps are recorded, when the bar
hides and when it subscribes to komorebi again. `app/` is the program around it:
it owns the windows, the files, the threads and the sound device, hands the
library plain values and does what the library answers.

What works on floating-point numbers or inside a call to a device is in `app/`
too: how much a use of an app counts by its age, and rounding and clamping the
volume. The library orders apps by the integer rank made of the score, and shows
the volume it is given. When komorebi closes the link, `app/` tells from the
socket; what follows from it, the library decides.

## The library

| Module | What it holds |
|---|---|
| `win32` | message and key numbers, and the words packed into message parameters |
| `geometry` | rectangles, and the places of the widgets, the popup and its rows |
| `paint` | drawing as a list of steps |
| `labels` | the texts of the volume widget and the clock |
| `text` | lower case, substrings and dictionary order |
| `utf16` | text to and from UTF-16 |
| `apps` | which files of the Start Menu are apps |
| `usage` | how often and how recently each app was launched |
| `filter` | which apps match a query, and in what order they are listed |
| `search` | the app search: its state, its popup and the keys and clicks on it |
| `komorebi` | reading the active workspace from komorebi's notifications |
| `fullscreen` | when the bar hides |
| `volume` | using the sound device, which is cached, and its mute state |
| `bar` | the bar: its state, its messages and how it is drawn |
| `laws` | what holds of several of these at once |

## Building the program

`app/` builds for Windows only. Besides what `Cargo.toml` lists it needs
`komorebi_client`, which is published in komorebi's own repository and not on
the crate registry, so that it has no line there.

## What is trusted

The contracts of the functions marked `external_body` and of the
`assume_specification` items are believed, not proved. They are:

- in `text`, `str::to_lowercase`;
- in `utf16`, `String::from_utf16_lossy`;
- in `labels`, the local time of `chrono`, formatted;
- in `search`, the Unix time of `chrono`;
- in `komorebi`, `serde_json::from_str` and `get`, `as_u64` and `as_array` of
  `serde_json::Value`.
