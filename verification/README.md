# vcontrol

A client library for the Optolink interface of Viessmann heating
controllers, with its behaviour stated in Verus contracts and proved.

- `src/` is the verified library: the value codecs of the controller's data
  types (BCD dates and times, switching programs, device identifiers, error
  records), the reading and writing of command values, the telegrams and
  checks of the VS1, VS2 and P300 protocols, device detection, the decisions
  of a connection, the integer expressions that compute a value from its
  bytes (`src/arithmetic.rs`), the listing of a memory scan
  (`src/scan.rs`), and the importer logic that turns the vendor's
  data-point definitions into command tables (`src/codegen`).
- `app/` is the command-line program around it: the serial or TCP link, the
  protocol exchanges on it, floating-point conversions and expressions, and
  output.
- `tests/` exercise the library on concrete values.

The command and device tables that the importer produces from the vendor's
data files are not part of this tree; the program carries the two system
commands that identify a controller.
