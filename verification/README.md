# rlock

A screen locker for X11. The verified library (`src/`) holds the decisions:

- `config`: the colour map, the configuration-file parser and its word splitting;
- `keys`: which key symbols the password prompt ignores;
- `password`: where the password digest lives, how a typed line becomes the
  password, and its MD5 digest;
- `prompt`: what each key press does to the typed password, the lock, and the screens;
- `lockscreen`: the grab retries while a screen is being locked, and window
  resizing after a screen change;
- `structs`: the records of a locked screen and of the RandR extension.

`app/` is the program around it: argument parsing, reading and writing files,
and the X11 calls.
