//! What a template asks of its user, and the answers that a bookmark gives in advance.

pub mod global;
pub mod repo;

pub use self::global::{DefaultSetting, DefaultValue, Defaults};
pub use self::repo::context::{fill_context, new_context};
pub use self::repo::{FileIgnore, IgnoreScope, RepoSettings};
