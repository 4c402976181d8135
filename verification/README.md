# pingoo

The rules of a reverse proxy as a verified library.

- `src/rate_limiter` counts the requests of each client in a sliding window and says who may go on.
  `model` is what a limiter holds, `bucket` the counters of one window, `laws` what holds of every
  limiter.
- `src/rules` holds rules against requests and addresses against blocks of addresses.
- `src/ruleset` checks the expressions of rules.
- `src/services/http_utils` tells which host and path a request is for, and makes short answers.
- `src/host`, `src/ip`, `src/text`, `src/time` and `src/error` are what these are built on.

`app/` connects the library to tokio, hyper, serde and the expression language.
