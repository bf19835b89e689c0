# subway

A verified library for a tunnelling service in the manner of ngrok: a
client opens a socket to the API server and acquires a proxy under a
subdomain; the reverse proxy sends requests for that subdomain to the API,
which forwards them over the socket to the client; the client passes them to
a local service and sends the answers back.

`src/` is the library, verified with Verus:

- `settings`, `gateway_settings`, `server_config`, `env` read the servers'
  settings from a snapshot of the environment.
- `headers` and `json` turn header fields into a JSON object and back, and
  choose the fields that a response carries on.
- `dto` holds the messages (sign-in, proxy and tunnel requests and answers)
  and their validation.
- `proxies` decides acquiring and releasing proxies and opens the forwarding
  of a request; `response_store` keeps the answers until they are taken.
- `routing` is where the reverse proxy sends a request; `client` holds the
  command line client's credentials and addresses and prepares the requests
  it passes to the local service; `urls` and `text` are helpers.
- `error` maps failures to HTTP status codes.

`app/` is one program around the library: the command line client (`http`)
and the reverse proxy (`reverse-proxy`), with the I/O they need: reading the
environment and files, HTTP and socket traffic, and the JSON forms of the
messages. The API server, whose routes store proxies and users in a
database, is not part of it. `tests/` runs the library on concrete values.
