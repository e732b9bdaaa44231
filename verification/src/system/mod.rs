//! The system layer: identities, the naming rules of edits, and the
//! behaviour groups over the relationships of one design.
pub mod ids;
pub mod names;
pub mod model;
pub mod group;
