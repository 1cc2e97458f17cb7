//! Resolves a hierarchical configuration into named data scopes (namespaces),
//! binds each scope to its template files and decides how they are rendered:
//! output paths, ownership and permission bits, and the skeleton data files
//! that list the variables a namespace's templates need.
pub mod config;
pub mod datafile;
pub mod namespace;
pub mod policy;
pub mod template;
pub mod text;
pub mod value;
