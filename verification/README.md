# lift

Lift installs Nintendo Switch ROMs (`.nsp`, `.xci`) on a console, over USB
or over the network.

- `src/` is the verified library: the USB install protocol (command headers,
  file requests, the list of files, how a range is cut into transfers, which
  endpoints are used), the network install (addresses, the announced list, how
  a `Range` header is answered), the readers of the ROM formats (PFS0, HFS0,
  RomFS, NCA file system headers, card headers, control data, keyrings), the
  choice of the title and icon a ROM is shown with, and the decisions of the
  user interface. Each function states what it computes in its contract, and
  Verus proves it.
- `tests/` runs the library on concrete values.
- `app/` is the GTK program around the library: windows and pages, the
  desktop portal and libusb, the file server, and file I/O.

The title, version, icon and content type of a ROM are stored inside its
encrypted content archives. This build has no decryption of content archives,
so the program shows each ROM under its file name, with version 0.0.0, and
says why; the library's title and icon logic (`ControlScan`, `InfoFilesScan`,
`TitleInfo`) works on the decrypted control data once it is available.
