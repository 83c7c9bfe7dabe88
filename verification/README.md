# copilot_usage

The signed-in GitHub Copilot account's usage for the current billing cycle: the request that asks
GitHub for it, what the answer means, and the status bar indicator that shows it. The library is
written in Verus; its contracts are proved.

- `src/copilot_usage.rs`: usage, quotas and how a quota's numbers become credits.
- `src/date.rs`: the date of a reset report.
- `src/double.rs`, `src/rounding.rs`: double-precision numbers as bit patterns, with the rounding
  that the counts go through.
- `src/request.rs`: the request, and the error message for an unsuccessful answer.
- `src/usage_indicator.rs`: when the indicator polls, what it keeps and what it shows.
- `src/text.rs`: text as sequences of characters.
- `app/client.rs`: sends the request and reads the JSON of the answer.
- `app/status_item.rs`: runs the indicator in an editor, which it knows as a trait.

Trusted rather than proved: `char::is_whitespace` and `String::from_utf8_lossy` of std, and
how the `http` crate shows a status code.
