# demand_curve_ui

A web page that draws demand curves: it fetches demand readings (an RFC 3339
timestamp and a value in MW each) from a data source, fits them into a chosen
date range and draws them on a canvas as a step line.

The library under `src/` is verified with Verus:

- `timestamp` — instants in UTC as plain integers, ordered as `chrono` orders
  them, and the calls into `chrono` that parse and shift them;
- `fit` — fitting readings into a window `[from, to)`, with its laws
  (idempotence, order, coverage of the window's start);
- `series` — the corners of the step line through readings, and the demo
  series;
- `page` — how the page resolves its data source (through `url`), checks its
  date range and parses the readings that came back;
- `text` — greetings, chart captions and the page's status line.

`app/` holds what runs in the browser: the `sycamore` component, the request
with `reqwest`, the JSON reading with `serde_json`, and the drawing with
`plotters` on a canvas.
