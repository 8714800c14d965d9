# weather_bot

A Telegram bot that answers with the weather at a user's stored location, shown for the
forecast fields the user chose.

- `src/` is the verified library: the names of sources, forecast kinds, fields and
  commands; the bot's decisions for each update (`telegram::bot::plan_update`); the
  messages it sends; the reading of a user's choice of fields; the freshness rule of
  stored forecasts; the check of notification times; and the forecast report.
- `app/` runs the bot: the polling loop, the bot API and forecast service over HTTP, the
  PostgreSQL tables, and the floating-point rendering of forecast values.
