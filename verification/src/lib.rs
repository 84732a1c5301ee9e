//! A read-only query library for a task store with joined categories.
//!
//! The store is a small relational model: a task table, a category table,
//! and a link table tying tasks to categories. The data-access functions
//! implement the inner-join fetch semantics (fetch one task by identifier,
//! fetch every linked task), and the resolver layer maps each outcome to a
//! success value or a classified error carrying a machine-readable code.

pub mod posts;
pub mod resolvers;
pub mod store;
