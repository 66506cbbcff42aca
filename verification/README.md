# oauth_refresh

Keeps the token of a provider fresh whose tokens expire. The provider has a
refresh endpoint that takes a `POST` request without a body and four headers:

| Header             | Value                                    |
|--------------------|------------------------------------------|
| `subscription-key` | The subscription key                     |
| `api-version`      | The API version, such as `3.0`           |
| `api-token`        | The current, possibly expired, API token |
| `refresh-token`    | The current refresh token                |

It returns a new API token, a new refresh token and a time to live. The next
refresh is due after 80% of that time, and at least 30 seconds later. Where it
returns no usable time to live, a fallback interval takes its place. A refresh
that fails leaves the tokens as they are and is repeated 30 seconds later.

The library under `src/` makes every decision and is verified with Verus:

- `config`, `env`: the configuration, and the settings that come from the environment
- `url`, `text`: the address of the endpoint, and the trimming of text
- `http`, `error`: status codes, and error messages
- `refresh`: one call of the endpoint
- `delay`, `double`: when a refresh is due, in the arithmetic of double precision
- `manager`: setup, and the cycle of waiting and refreshing

The crate under `app/` does the rest: it reads the environment, sends requests
and runs the background task.
