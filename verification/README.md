# telemux

A telemetry gateway. It polls devices over Modbus, turns raw samples into
metrics (unit conversion, filters, expressions, thresholds, statistics), and
shows them over Redfish, Modbus and a dashboard. A simulator of a cooling unit
stands beside it, with a Modbus-TCP slave and a web interface.

- `src/` is the library, verified with Verus: configuration and its rules,
  decoding and encoding of registers, pipelines, computed sensors, the store of
  latest values, the decisions of the polling tasks and of the servers, and the
  simulator's model and registers.
- `app/` is the program around it: command line, files, sockets, HTTP, logging,
  and the arithmetic on floating-point numbers.
- `tests/` runs the library.

Numbers are held as binary64 encodings (`number::Real`). Comparisons, rounding
and conversions to and from registers are verified on the encodings. Sums,
products and the evaluation of expressions are done by functions that the caller
gives; the library states for every such function what it does with the results.

The program runs as the gateway, as the simulator where it is started under the
name `telemux-sim`, and as a board in memory under the name `mock_pcba`.
