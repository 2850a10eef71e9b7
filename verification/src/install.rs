//! The decisions taken while installing threads: what is recorded per
//! attachment, which files are written, and how a subject's run is tallied.

use vstd::prelude::*;

use crate::cli::{
    comments_toml_spec, item_view, manifest_spec, write_comments_toml, write_manifest_toml,
};
use crate::model::{attachment_views, comment_views, Attachment, AttachmentView, Comment, CommentView};

verus! {

/// The number of items that carry comments.
pub open spec fn commented_count(items: Seq<(AttachmentView, Seq<CommentView>)>) -> nat
    decreases items.len(),
{
    if items.len() == 0 {
        0
    } else {
        commented_count(items.drop_last()) + if items.last().1.len() > 0 {
            1nat
        } else {
            0nat
        }
    }
}

proof fn lemma_commented_count_le(items: Seq<(AttachmentView, Seq<CommentView>)>)
    ensures
        commented_count(items) <= items.len(),
    decreases items.len(),
{
    if items.len() > 0 {
        lemma_commented_count_le(items.drop_last());
    }
}

/// The install of one thread's attachments, in the order given: for each
/// attachment its comments (when they are wanted) are recorded, then whether
/// its file was already on disk.
pub struct InstallRun<'a> {
    attachments: &'a [Attachment],
    with_comments: bool,
    items: Vec<(&'a Attachment, Vec<Comment>)>,
    existing: usize,
    commented: usize,
}

/// The mathematical value of an [`InstallRun`].
pub struct InstallRunView {
    pub attachments: Seq<AttachmentView>,
    pub with_comments: bool,
    pub items: Seq<(AttachmentView, Seq<CommentView>)>,
    pub existing: nat,
    pub commented: nat,
}

impl<'a> View for InstallRun<'a> {
    type V = InstallRunView;

    closed spec fn view(&self) -> InstallRunView {
        InstallRunView {
            attachments: attachment_views(self.attachments@),
            with_comments: self.with_comments,
            items: self.items@.map_values(|it: (&Attachment, Vec<Comment>)| item_view(it)),
            existing: self.existing as nat,
            commented: self.commented as nat,
        }
    }
}

impl<'a> InstallRun<'a> {
    /// The items follow the attachments in order, the counts are those of
    /// the items recorded.
    pub open spec fn wf(&self) -> bool {
        &&& self@.items.len() <= self@.attachments.len()
        &&& forall|i: int| 0 <= i < self@.items.len() ==> #[trigger] self@.items[i].0 == self@.attachments[i]
        &&& !self@.with_comments ==> forall|i: int| 0 <= i < self@.items.len() ==> #[trigger] self@.items[i].1.len() == 0
        &&& self@.commented == commented_count(self@.items)
        &&& self@.existing <= self@.items.len()
    }

    /// An install of `attachments` that has recorded nothing yet.
    pub fn new(attachments: &'a [Attachment], with_comments: bool) -> (r: Self)
        ensures
            r.wf(),
            r@.attachments == attachment_views(attachments@),
            r@.with_comments == with_comments,
            r@.items.len() == 0,
            r@.existing == 0,
    {
        let r = InstallRun { attachments, with_comments, items: Vec::new(), existing: 0, commented: 0 };
        assert(r@.items =~= Seq::<(AttachmentView, Seq<CommentView>)>::empty());
        r
    }

    /// Whether comments are fetched.
    pub fn wants_comments(&self) -> (r: bool)
        ensures
            r == self@.with_comments,
    {
        self.with_comments
    }

    /// The attachment to handle next, once every earlier one is recorded.
    pub fn current(&self) -> (r: Option<&'a Attachment>)
        requires
            self.wf(),
        ensures
            r matches Some(a) ==> self@.items.len() < self@.attachments.len() && a@
                == self@.attachments[self@.items.len() as int],
            r is None ==> self@.items.len() == self@.attachments.len(),
    {
        let i = self.items.len();
        if i < self.attachments.len() {
            Some(&self.attachments[i])
        } else {
            None
        }
    }

    /// Records the comments of the current attachment: those fetched, or
    /// none when fetching failed or comments are not wanted.
    pub fn record_comments(&mut self, fetched: Option<Vec<Comment>>)
        requires
            old(self).wf(),
            old(self)@.items.len() < old(self)@.attachments.len(),
        ensures
            final(self).wf(),
            final(self)@.attachments == old(self)@.attachments,
            final(self)@.with_comments == old(self)@.with_comments,
            final(self)@.existing == old(self)@.existing,
            final(self)@.items == old(self)@.items.push(
                (
                    old(self)@.attachments[old(self)@.items.len() as int],
                    match fetched {
                        Some(cs) => if old(self)@.with_comments {
                            comment_views(cs@)
                        } else {
                            seq![]
                        },
                        None => seq![],
                    },
                ),
            ),
    {
        let i = self.items.len();
        let comments = match fetched {
            Some(cs) => if self.with_comments {
                cs
            } else {
                Vec::new()
            },
            None => Vec::new(),
        };
        assert(comment_views(comments@) =~= match fetched {
            Some(cs) => if self.with_comments {
                comment_views(cs@)
            } else {
                seq![]
            },
            None => seq![],
        });
        let ghost old_items = self@.items;
        let total = self.attachments.len();
        proof {
            lemma_commented_count_le(old_items);
            assert(old_items.len() == i);
            assert(self.commented <= i);
            assert(i < total);
        }
        if comments.len() > 0 {
            self.commented = self.commented + 1;
        }
        let a: &'a Attachment = &self.attachments[i];
        let ghost cv = comment_views(comments@);
        self.items.push((a, comments));
        assert(self@.items =~= old_items.push((a@, cv)));
        assert(self@.items.drop_last() =~= old_items);
        assert(self@.items[i as int].0 == self@.attachments[i as int]);
    }

    /// Records that the current attachment's file was already on disk.
    pub fn record_present(&mut self)
        requires
            old(self).wf(),
            old(self)@.existing < old(self)@.items.len(),
        ensures
            final(self).wf(),
            final(self)@ == (InstallRunView { existing: old(self)@.existing + 1, ..old(self)@ }),
    {
        let n = self.items.len();
        assert(self.existing < n);
        self.existing = self.existing + 1;
    }

    /// Whether `comments.toml` is written: comments are wanted and some
    /// attachment has some.
    pub open spec fn writes_comments(&self) -> bool {
        self@.with_comments && self@.commented > 0
    }

    /// The files to write, once every attachment is recorded: `comments.toml`
    /// when some attachment has comments (and comments are wanted), and
    /// `manifest.toml`.
    pub fn files(&self, title: &str, id: u32) -> (r: (Option<String>, String))
        requires
            self.wf(),
        ensures
            r.0 matches Some(c) ==> self.writes_comments() && c@ == comments_toml_spec(
                title@,
                id,
                self@.items,
            ),
            r.0 is None ==> !self.writes_comments(),
            r.1@ == manifest_spec(title@, id, self@.attachments),
    {
        let comments = if self.with_comments && self.commented > 0 {
            Some(write_comments_toml(title, id, self.items.as_slice()))
        } else {
            None
        };
        (comments, write_manifest_toml(title, id, self.attachments))
    }

    /// What the install reports: attachments, files already present,
    /// attachments with comments.
    pub fn summary(&self) -> (r: (usize, usize, usize))
        requires
            self.wf(),
        ensures
            r.0 == self@.attachments.len(),
            r.1 == self@.existing,
            r.2 == self@.commented,
    {
        (self.attachments.len(), self.existing, self.commented)
    }
}

/// How the install of one thread of a subject ended.
#[derive(Debug, Clone, Copy, PartialEq, Eq)]
pub enum InstallOutcome {
    /// The thread was installed.
    Installed,
    /// Its manifest was already there.
    AlreadyInstalled,
    /// The site answered 403: the run stops.
    Forbidden,
    /// Anything else went wrong; the run goes on.
    Failed,
}

/// The tally of a subject's install run.
#[derive(Debug, Clone, Copy)]
pub struct InstallTotals {
    pub done: usize,
    pub skipped: usize,
    pub failed: usize,
}

impl InstallTotals {
    /// Nothing installed yet.
    pub fn new() -> (r: Self)
        ensures
            r.done == 0 && r.skipped == 0 && r.failed == 0,
    {
        InstallTotals { done: 0, skipped: 0, failed: 0 }
    }

    /// Counts one thread's outcome; `false` when the run must stop.
    pub fn record(&mut self, outcome: InstallOutcome) -> (go_on: bool)
        requires
            old(self).done + old(self).skipped + old(self).failed < usize::MAX,
        ensures
            go_on == !(outcome is Forbidden),
            final(self).done == old(self).done + (if outcome is Installed { 1int } else { 0 }),
            final(self).skipped == old(self).skipped + (if outcome is AlreadyInstalled {
                1int
            } else {
                0
            }),
            final(self).failed == old(self).failed + (if outcome is Failed { 1int } else { 0 }),
    {
        match outcome {
            InstallOutcome::Installed => {
                self.done = self.done + 1;
                true
            },
            InstallOutcome::AlreadyInstalled => {
                self.skipped = self.skipped + 1;
                true
            },
            InstallOutcome::Forbidden => false,
            InstallOutcome::Failed => {
                self.failed = self.failed + 1;
                true
            },
        }
    }
}

} // verus!
