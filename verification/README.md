# containr

The core of a container platform, verified with Verus: configuration,
service and deployment models, naming and routing rules, runtime summaries,
container plans for services, cron runs and managed databases, the cron
scheduler's memory, the service catalog, the relational record layout of
the stored models, the encryption of stored secrets, the answers and
upstream choices of the reverse proxy, and the decision steps of the loops
that roll out replicas, start managed databases and ask for certificates.
Each step takes what the container runtime, the store or the network
reported and returns the next action; the program that performs those
actions (the server, proxy and worker) is not part of this crate.

Layout:

- `src/` — the verified library. Each module states its behaviour in
  `requires`/`ensures` contracts over mathematical models (`Seq`, `Map`,
  `Set`, views); the public `lemma_*` proof functions state the laws that
  relate several operations (a stored record reads back, a group listing
  lists only that group, normalization is idempotent, and so on).
- `tests/` — executable tests of the library on concrete values.
- `app/` — a small command-line program around the library: it installs
  the systemd unit, shows the client configuration (TOML on disk) and
  prunes old log files.

Calls into outside crates (uuid, chrono, croner, aes-gcm, sha2, base64,
rand) go through small trusted wrappers whose contracts say what the crate
documents; everything around them is proved.
