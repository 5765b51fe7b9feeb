# ssl_manager

Obtains TLS certificates for a domain, either as Cloudflare origin certificates or from
Let's Encrypt through DNS-01 challenges published with a DNS provider (Cloudflare or by
hand).

The library in `src/` is verified with Verus:

- `dns/` — where challenge records live (`Clients::challenge_record`), the providers,
  the Cloudflare zone and record endpoints, searching a name from its end
  (`utils::rfind`), and the TXT lookup schedule and DNS message handling
  (`utils::lookup`).
- `acme/` — the decisions of the ACME flow: which records to create, which challenges to
  mark ready, the cleanup after a failure (`challenges`), and waiting for the order
  (`ready`).
- `cloudflare/` — the origin certificate request and the shared API client.
- `certificate.rs` — the key and signing request of a new certificate.

`app/` is the program around it: the network exchanges, files and the event loops that
perform the actions the library decides.
