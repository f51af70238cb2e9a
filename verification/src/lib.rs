//! A minimal verified core for an HTTP "posts" service: route dispatch,
//! serialized access to a persistent record store, and template rendering.
//!
//! The storage engine (SQLite through `rusqlite`), the template engine
//! (`tera`), the form decoder (`serde_urlencoded`) and the identifier
//! generator (`uuid`) are outside collaborators, each reached through a few
//! trusted items whose contracts say no more than those crates' sources show.
//! Everything else — the routing table, the handlers, the identifier syntax,
//! the template grammar, and what each response and store change must be —
//! is stated and proved here.

pub mod form;
pub mod handlers;
pub mod ids;
pub mod render;
pub mod router;
pub mod store;
pub mod template;
pub mod text;
