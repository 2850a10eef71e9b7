//! The types most callers need.

pub use crate::error::Error;
pub use crate::model::{Attachment, Comment, ForumPage, Thread, ThreadPage};
