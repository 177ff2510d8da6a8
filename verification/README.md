# pzmod-dli

Downloads Project Zomboid mods from the Steam Workshop with SteamCMD and
installs them into a mods folder.

- `src/` is the verified library: where the configuration and SteamCMD live
  (`config`, `steamcmd`, `zomboid`), how paths are joined and inspected
  (`path`), the command line and item list (`cli`, `text`), the SteamCMD
  command, and the state machine that installs one downloaded item
  (`install`). The program hands it a snapshot of the host (`host`).
- `app/` is the program: it reads the environment, the terminal and the
  configuration file, runs SteamCMD, and carries out the file system actions
  that the library decides on. The library holds paths as text, so a path
  from the environment or the configuration file that is not valid UTF-8 is
  refused with a message rather than altered.
- `tests/` exercises the library on concrete values, several of them against
  `std`'s own string and path functions.
