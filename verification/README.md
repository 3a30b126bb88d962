# zendure

A controller for a home battery. It reads a grid meter, decides when the
battery charges, discharges or stands by, sends the command, and records every
event and decision so that a run can be replayed.

`src/` is the library. Every rule of the controller stands there with a
contract that Verus proves: the decision and its guards, the fold over events,
the journal's rows and their replay, the configuration file, the messages to
Home Assistant, the round-trip efficiency, the forecast's schedule, and what
the running process does about each thing it hears. Powers are held in
milliwatts and energies in fixed fractions of a watt-hour, so that arithmetic
is exact; a figure that is published is rounded as the binary number nearest to
it would be. What is believed of other crates without proof is in the functions
marked `external_body` and the names beside them, in `calendar`, `json`,
`setting`, `text` and `toml_tree`.

`app/` is the process around it: arguments, files, the SQLite database, MQTT,
HTTP, signals, and JSON as it is stored.

`tests/` runs the library from outside.
