# chatgpt_oauth

A low-level client for the ChatGPT backend (`chatgpt.com/backend-api/codex`), called with
the OAuth token of a ChatGPT subscription instead of an API key.

- `src/` is the library: everything a client has to decide and to compute, verified with
  Verus. It makes requests, reads streams of server-sent events, puts responses together,
  and says when a failed request is sent again.
- `app/` is the asynchronous client around it: sockets, timers and the environment.
- `tests/` runs the library.

## What is proved

| Module | What its contracts say |
| --- | --- |
| `sse`, `sse_laws` | which events a stream of bytes gives, however it is cut; what is sent is what arrives; memory stays bounded |
| `response`, `response_laws` | which response a stream of events makes; a failure never passes as a success; finished items become its output; where the stream finishes no item and the response comes without output, its text is the pieces of text that were streamed |
| `event` | the typed event or item that a document stands for |
| `retry`, `double` | whether and when a request is sent again; one with side effects is not sent twice where the server may have acted on it |
| `exchange`, `headers` | where a request goes and what it carries; credentials are renewed once at most; a token goes only to the base URL that it came with, once that has been checked |
| `options`, `input` | the exact body of a request |
| `usage`, `calendar`, `capture`, `error` | quotas, dates, raw captures, kinds of failures |

## What is trusted

`serde_json` reads and writes JSON text, `http` (through `reqwest`) holds headers, and the
standard library decodes UTF-8, trims text and reads the clock. What is assumed of each
call stands in the contract of its wrapper.
