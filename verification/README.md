# cm3500_b_ce_exporter

A Prometheus and OTLP exporter for the ARRIS CM3500B CE cable modem, whose
core is verified with Verus.

## Layout

- `src/` — the verified library.
  - `parser.rs`, `channel_page.rs`, `product_page.rs`, `spectrum_page.rs`:
    read the modem's status (with its channel tables), version, DHCP, QoS,
    DOCSIS state, event-log, configuration and product pages and the
    spectrum scan response; each field's contract says which pattern match it comes from,
    and spectrum chunks are decoded from their hexadecimal words.
  - `metrics.rs`, `channels.rs`, `spectrum.rs`: the Prometheus text
    exposition of a scrape, stated section by section as the exact text
    produced; the analog measurements enter as the text they are exposed
    with.
  - `otlp.rs`, `otlp_metrics.rs`: endpoint normalisation, resource
    attributes, counter start times, the OTLP metric descriptions of a
    scrape, and the de-duplicated log records of modem events.
  - `automation.rs`: the link-state hysteresis (`up` / `degraded` /
    `down`), the capacity derived from the service-flow configuration,
    and the decision of when the automation files must be rewritten.
  - `events.rs`: event classification, severities, per-ID counts and the
    last profile per channel.
  - `client.rs`: login-response classification, session-expiry detection
    and the re-authenticating fetch as a state machine.
  - `text.rs`, `num.rs`, `pattern.rs`, `clock.rs`: strings, decimal
    numbers, the `regex` crate and the wall clock, behind contracts.
- `app/` — the executable: HTTP access to the modem, the axum server,
  OTLP/HTTP pushes as JSON, the automation files, and the conversion of
  the analog channel and spectrum measurements to and from floating-point
  values.
- `tests/` — tests of the library.

## Laws

Besides the contracts of each function, the library proves properties that
span calls, among them: the hysteresis reaches `down` after exactly the
configured number of bad scrapes and `up` after the configured number of
good ones; automation files are not rewritten when their meaning is
unchanged; an event log considered twice yields no log record the second
time; metrics and logs endpoints share one base; label escaping is
injective and never produces a line break; decimal rendering and parsing
are inverse.
