# gold_rates

A live gold-rate board: a web server that follows the Treasury gold rate feed and the
USD/IDR quote and pushes both to browsers.

`src/` is the verified library (Verus): number and time formatting in the Indonesian style,
reading rates from the feed, the bounded histories, the de-duplication of feed updates, the
decisions of the security layer and of the limit-setting routes, and the reconnect policy
of the feed.

`app/` is the server around it: the HTTP routes, WebSocket plumbing, the feed connection and
the fetching of the USD/IDR page. It is not complete on its own: it expects modules
`config`, `rate_limiter`, `template` and `ws_manager`, and a `state` module whose shared
state holds the library's `TreasuryState` (the seen updates, last buying rate and gold
history) and a `BoundedHistory<UsdIdrEntry>`, with the cache, block list and counters the
routes use. None of these modules is part of this crate.
