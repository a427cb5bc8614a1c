# firmware-core

The core of the firmware of a 3D printer, written in Verus: every function of the library under
`src/` carries a contract that Verus proves.

- `src/printer/components/drivers`: the SPI NAND flash memory (addresses, commands and the steps
  that program, read, move and erase its pages and blocks), the TMC2209 stepper driver (its UART
  datagrams, registers and microstep resolutions) and the BLTouch commands.
- `src/printer/components/file_system`: a file system on the flash memory, with a bad block
  table, a region of file metadatas (stored in the first page of its blocks) and the search of
  free space for new files.
- `src/printer/components/g_code`: the parameters of the G-code commands, their parsing, and the
  executer that prepares and executes the commands in order.
- `src/printer/communication`: the HTTP requests, the history of the G-code lines read, and the
  security of the requests (lists of IP addresses, a password hashed with Argon2, and a protection
  against brute force attacks).
- `app/`: the platform side, in plain Rust: it executes the planned steps on an `embedded-hal`
  SPI device, mounts the file system and reads the peppers of the password from the build
  environment.

The library never talks to the hardware itself: its operations on the flash memory return the
commands to send, which `app/` executes.
