# shorty

A URL shortening service whose logic is verified with Verus.

- `src/` is the verified library:
  - `shorty.rs`: the service's messages and the routing of request paths.
  - `shorty_mongo.rs`: the base-62 short segment, the URL with Google
    Analytics parameters, stored documents, the queries made against the
    store, and `shorten`, the steps of shortening a URL (a function from an
    event to the next action). Laws about new links (their short URL finds
    them again, their reply id names them, when a repeated request finds
    them) are proof functions here.
  - `shorty_server.rs`: what each method of the service answers.
  - `object_id.rs`: document ids, with hex encoding, parsing and generation
    through the `bson` crate.
  - `text.rs`: trimming of Unicode whitespace and ASCII lower-casing.
- `app/` is the server: gRPC plumbing (tower-grpc), MongoDB access, the
  environment, and the loop that performs the actions `shorten` asks for.
- `tests/` runs the library on concrete values.
