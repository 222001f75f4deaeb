# MacMTP

A native macOS browser for MTP devices: phones, readers and consoles. It lists the attached
devices, shows their files in a tree, previews them with Quick Look, copies them to the Mac by
drag and drop, and mounts a device read-only under `/Volumes/MacMTP - ...` where macFUSE is
installed. It speaks English and Simplified Chinese.

- `src/` is the library: what a request or an event changes in the session and what is to be
  done then, what the browser, the device list and the detail pane show and in which words, in
  which order a folder is copied and to which paths, what the mounted file system answers, how
  things are named. Each function has a contract that Verus proves. The `law_*` functions
  state what holds across them.
- `app/` is the application around it: windows, threads, USB, files and macFUSE. What is
  measured in points stands here too, such as where the lines of the detail pane stand and how
  many of them fit. It starts with the full window, or with the compact one when given
  `--compact`.
- `tests/` runs the library on concrete values.

Taken on trust is only what a few functions outside the library do: whether `mtp_rs` takes an
object for a folder, when it blames another process for an error, whether `fuser` takes a
file to be opened for reading only, and two functions of the standard library on strings. Each
stands behind an item that names the function and says what is claimed of it. How the system
words an error is left open: what holds is stated for whatever text comes.
