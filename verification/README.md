# backend

The logic of a small network-lab backend that runs virtual machines on QEMU
disk overlays and opens their consoles through Apache Guacamole, written in
Verus with its behaviour stated in contracts and proved.

- `src/` is the verified library:
  - `text`: trimming, prefix tests and decimal rendering on the character
    view of strings;
  - `identifier`: sanitizing free text into Guacamole identifiers, with the
    laws that sanitized identifiers are clean and that sanitizing is
    idempotent;
  - `env_map`: the configuration map (names are unique, a later value
    replaces an earlier one);
  - `setup`: reading the `.env` files, the database and Guacamole URLs, the
    log level;
  - `guacamole`: the Guacamole settings, URLs and request bodies;
  - `models`: records, API responses and the check that keeps image paths
    inside their directory;
  - `qemu`: VM configuration, VNC state, display allocation and the chain
    of an image up to its base image.
- `app/` is the program around it: environment and file-system access,
  HTTP (axum, reqwest), the database (sqlx), the QEMU monitor socket and
  logging.
- `tests/` run the library on concrete values.
