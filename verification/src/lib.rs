//! Schema model and entity-relationship graph logic for rendering the ERD of
//! a PostgreSQL database.

pub mod db;
pub mod erd;
pub mod text;
pub mod viewer;
pub mod hover;
