//! Commits to table metadata, and validation of plans against table schemas.
//!
//! [`apply`] evolves the metadata document of a table by the updates of a commit;
//! [`semantic_binding`] checks what a plan expects of the physical fields of a table against its
//! schema. [`update_laws`] tells what each update does, and [`laws`] what holds of commits as a
//! whole; [`binding_laws`] tells what holds of schemas and of validation. [`text_laws`] and
//! [`model_laws`] tell what the texts look like and that the models leave nothing out.
pub mod apply;
pub mod binding_laws;
pub mod collections;
pub mod error;
pub mod laws;
pub mod layout;
pub mod model_laws;
pub mod name_map;
pub mod schema;
pub mod semantic_binding;
pub mod snapshot;
pub mod statistics;
pub mod table_metadata;
pub mod table_update;
pub mod text;
pub mod text_laws;
pub mod types;
pub mod update_laws;
