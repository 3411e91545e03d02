# influxdb_connector

The verified core of a native connector for InfluxDB: what a connection request asks for, how the
HTTP client is secured, what is sent to the server, how its answers become tables and descriptions
of databases, and what each call is answered. The contracts are proved with Verus.

- `src/` is the library. `json` and `codec` hold JSON values and their passage to `serde_json`;
  `text`, `replace`, `numeral` and `order` the texts; `request`, `url`, `tls` and `config` what a
  request asks for; `exchange`, `rows` and `metadata` what goes to and comes from the server;
  `connections`, `driver` and `session` the calls; `shape` and `laws` what holds of them all.
- `app/` is the connector at work: the native interface, the PEM files, HTTP and the open
  connections.
- `tests/` runs the library with `serde_json` and `reqwest` linked.
