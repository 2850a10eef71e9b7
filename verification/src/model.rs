//! What the library reads off the forum's pages.

use vstd::prelude::*;

verus! {

/// The view of an optional owned string.
pub open spec fn opt_view(o: Option<String>) -> Option<Seq<char>> {
    match o {
        Some(s) => Some(s@),
        None => None,
    }
}

/// A file attached to a thread.
#[derive(Debug)]
pub struct Attachment {
    pub id: u32,
    pub name: String,
    pub url: String,
    pub size: Option<String>,
    pub views: Option<u32>,
    pub media_id: Option<u32>,
    pub media_slug: Option<String>,
}

/// The mathematical value of an [`Attachment`].
pub struct AttachmentView {
    pub id: u32,
    pub name: Seq<char>,
    pub url: Seq<char>,
    pub size: Option<Seq<char>>,
    pub views: Option<u32>,
    pub media_id: Option<u32>,
    pub media_slug: Option<Seq<char>>,
}

impl View for Attachment {
    type V = AttachmentView;

    open spec fn view(&self) -> AttachmentView {
        AttachmentView {
            id: self.id,
            name: self.name@,
            url: self.url@,
            size: opt_view(self.size),
            views: self.views,
            media_id: self.media_id,
            media_slug: opt_view(self.media_slug),
        }
    }
}

/// A comment left on an attachment's media page.
#[derive(Debug)]
pub struct Comment {
    pub author: String,
    pub body: String,
    pub date: String,
    pub vote: Option<String>,
}

/// The mathematical value of a [`Comment`].
pub struct CommentView {
    pub author: Seq<char>,
    pub body: Seq<char>,
    pub date: Seq<char>,
    pub vote: Option<Seq<char>>,
}

impl View for Comment {
    type V = CommentView;

    open spec fn view(&self) -> CommentView {
        CommentView { author: self.author@, body: self.body@, date: self.date@, vote: opt_view(self.vote) }
    }
}

/// A thread as listed on a forum page.
#[derive(Debug)]
pub struct Thread {
    pub id: u32,
    pub slug: String,
    pub title: String,
    pub prefix: Option<String>,
    pub prefix_class: Option<String>,
    pub author: String,
    pub replies: u32,
    pub url: String,
}

/// The mathematical value of a [`Thread`].
pub struct ThreadView {
    pub id: u32,
    pub slug: Seq<char>,
    pub title: Seq<char>,
    pub prefix: Option<Seq<char>>,
    pub prefix_class: Option<Seq<char>>,
    pub author: Seq<char>,
    pub replies: u32,
    pub url: Seq<char>,
}

impl View for Thread {
    type V = ThreadView;

    open spec fn view(&self) -> ThreadView {
        ThreadView {
            id: self.id,
            slug: self.slug@,
            title: self.title@,
            prefix: opt_view(self.prefix),
            prefix_class: opt_view(self.prefix_class),
            author: self.author@,
            replies: self.replies,
            url: self.url@,
        }
    }
}

/// The views of a sequence of threads.
pub open spec fn thread_views(ts: Seq<Thread>) -> Seq<ThreadView> {
    ts.map_values(|t: Thread| t@)
}

/// The views of a sequence of attachments.
pub open spec fn attachment_views(s: Seq<Attachment>) -> Seq<AttachmentView> {
    s.map_values(|a: Attachment| a@)
}

/// The views of a sequence of comments.
pub open spec fn comment_views(s: Seq<Comment>) -> Seq<CommentView> {
    s.map_values(|c: Comment| c@)
}

/// One page of a subject's thread list.
#[derive(Debug)]
pub struct ForumPage {
    pub threads: Vec<Thread>,
    pub page: u32,
    pub total_pages: u32,
}

/// A thread's own page: its title and attachments.
#[derive(Debug)]
pub struct ThreadPage {
    pub title: String,
    pub attachments: Vec<Attachment>,
}

} // verus!
