# astel

An admin panel for web services built on axum. Each registered resource gets
a listing, an edit page and a delete page under the panel's path.

- `src/` is the library, verified with Verus: the panel's configuration and
  its builder (`lib.rs`, `config.rs`), HTML escaping (`escape.rs`), pages and
  their rendering (`html.rs`), the item table (`table_serializer.rs`), what
  the request handlers compute (`routes/`) and lists of resource types
  (`type_list.rs`).
- `app/` is the web side: the axum router, the middleware, the request
  extractors and the `AstelResource` trait that resources implement.
- `tests/` runs the library on concrete values.
