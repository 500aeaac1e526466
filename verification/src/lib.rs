//! Hatching new projects from templates: the settings that a template declares and the
//! rules they have to meet, how answers given in advance and answers of the user become the
//! values that templates see, and which files of a template are rendered, copied or left
//! out.

pub mod number;
pub mod ordered;
pub mod repo;
pub mod settings;
pub mod templates;
pub mod text;
