//! A post as one section of a document: callout, headline, body and tags.

use crate::blocks::{blocks_known, blocks_text, learn_blocks, render_blocks};
use crate::clock::{lemma_readings_kept, local_readings, readable, Clock, Stamp, StampView};
use crate::error::{RenderError, TimestampField};
use crate::model::Chost;
use crate::ordered::texts;
use crate::text::{trim, trimmed};
use vstd::prelude::*;

verus! {

/// The tags of a post on one line, each behind `#`, with a blank between
/// two of them.
pub open spec fn tag_line(tags: Seq<Seq<char>>) -> Seq<char>
    decreases tags.len(),
{
    if tags.len() == 0 {
        Seq::empty()
    } else {
        tag_line(tags.drop_last()) + (if tags.len() > 1 {
            " "@
        } else {
            Seq::empty()
        }) + "#"@ + tags.last()
    }
}

/// Writes the tags on one line, without ending the line.
pub fn render_tags(tags: &Vec<String>, out: &mut String)
    ensures
        final(out)@ == old(out)@ + tag_line(texts(tags@)),
{
    let mut i: usize = 0;
    while i < tags.len()
        invariant
            i <= tags.len(),
            out@ == old(out)@ + tag_line(texts(tags@).take(i as int)),
        decreases tags.len() - i,
    {
        let ghost before = out@;
        if i > 0 {
            out.append(" ");
        } else {
            assert(out@ + Seq::<char>::empty() == out@);
        }
        out.append("#");
        out.append(tags[i].as_str());
        proof {
            let all = texts(tags@);
            assert(all.take(i + 1).drop_last() == all.take(i as int));
            assert(all.take(i + 1).last() == tags@[i as int]@);
        }
        i += 1;
    }
    proof {
        assert(texts(tags@).take(i as int) == texts(tags@));
    }
}

impl Chost {
    /// The callout up to the end of the time: the kind, the author's name,
    /// then on a second line the handle and when the post was published.
    pub open spec fn callout_head(&self, share: bool, published: StampView) -> Seq<char> {
        ">[!cohost-"@ + (if share {
            "share"@
        } else {
            "post"@
        }) + "] "@ + self.posting_project.display_name@ + "\n>@"@ + self.posting_project.handle@
            + " <time datetime=\""@ + published.machine + "\">"@ + published.display
            + "</time>"@
    }

    /// The callout that introduces this post. That of a share goes on with
    /// the name and handle of the author of the shared post; there is none
    /// where the shared post is not in the share tree.
    pub open spec fn callout_text(&self, share: bool, published: StampView) -> Option<Seq<char>> {
        if share {
            match self.shared_index() {
                Some(i) => Some(
                    self.callout_head(share, published) + " :LiRefreshCw: **"@
                        + self.share_tree@[i].posting_project.display_name@ + "** @"@
                        + self.share_tree@[i].posting_project.handle@ + "\n"@,
                ),
                None => None,
            }
        } else {
            Some(self.callout_head(share, published) + "\n"@)
        }
    }

    /// The callout of a post, or that of a share where `share` is set. A
    /// share whose shared post is not in the share tree has no callout; a
    /// post always has one.
    pub fn cohost_post(&self, share: bool, published: &Stamp) -> (callout: Option<String>)
        ensures
            (callout is Some) == (self.callout_text(share, published@) is Some),
            callout matches Some(text) ==> text@ == self.callout_text(share, published@)->0,
            !share ==> callout is Some,
    {
        let mut markdown = String::new();
        markdown.append(">[!cohost-");
        if share {
            markdown.append("share");
        } else {
            markdown.append("post");
        }
        markdown.append("] ");
        markdown.append(self.posting_project.display_name.as_str());
        markdown.append("\n>@");
        markdown.append(self.posting_project.handle.as_str());
        markdown.append(" <time datetime=\"");
        markdown.append(published.machine.as_str());
        markdown.append("\">");
        markdown.append(published.display.as_str());
        markdown.append("</time>");
        assert(markdown@ == self.callout_head(share, published@));
        if share {
            match self.shared_chost() {
                Some(shared) => {
                    markdown.append(" :LiRefreshCw: **");
                    markdown.append(shared.posting_project.display_name.as_str());
                    markdown.append("** @");
                    markdown.append(shared.posting_project.handle.as_str());
                },
                None => {
                    return None;
                },
            }
        }
        markdown.append("\n");
        Some(markdown)
    }

    /// The headline as a heading of the first level, and an empty line;
    /// nothing where the post has no headline.
    pub open spec fn headline_text(&self) -> Seq<char> {
        if self.headline@.len() == 0 {
            Seq::empty()
        } else {
            "# "@ + self.headline@ + "\n\n"@
        }
    }

    /// The section of this post: its callout, trimmed, and an empty line;
    /// the headline; the blocks; the line of tags and an empty line.
    pub open spec fn section_text(&self, clock: Map<Seq<char>, StampView>) -> Seq<char> {
        trimmed(self.callout_text(false, clock[self.published_at@])->0) + "\n\n"@
            + self.headline_text() + blocks_text(self.blocks@, clock) + tag_line(
            texts(self.tags@),
        ) + "\n\n"@
    }

    /// Whether every timestamp that the section of this post shows is among
    /// `known`.
    pub open spec fn known(&self, known: Set<Seq<char>>) -> bool {
        known.contains(self.published_at@) && blocks_known(self.blocks@, known)
    }

    /// The error of this post where not all its timestamps are among
    /// `known`: that of the time of publishing before that of an ask.
    pub open spec fn unresolved(&self, known: Set<Seq<char>>) -> Option<RenderError> {
        if !known.contains(self.published_at@) {
            Some(
                RenderError::UnresolvedTimestamp {
                    post_id: self.post_id,
                    field: TimestampField::PublishedAt,
                },
            )
        } else if !blocks_known(self.blocks@, known) {
            Some(
                RenderError::UnresolvedTimestamp {
                    post_id: self.post_id,
                    field: TimestampField::SentAt,
                },
            )
        } else {
            None
        }
    }

    /// Writes the section of this post, with the clock's readings of its
    /// timestamps. Fails where the clock lacks one of them; `out` then holds
    /// what came before it.
    pub fn render(&self, clock: &Clock, out: &mut String) -> (done: Result<(), RenderError>)
        ensures
            (done is Ok) == self.known(clock@.dom()),
            done is Ok ==> final(out)@ == old(out)@ + self.section_text(clock@),
            done matches Err(error) ==> Some(error) == self.unresolved(clock@.dom()) && old(
                out,
            )@.is_prefix_of(final(out)@),
    {
        let published = match clock.get(self.published_at.as_str()) {
            Some(published) => published,
            None => {
                return Err(
                    RenderError::UnresolvedTimestamp {
                        post_id: self.post_id,
                        field: TimestampField::PublishedAt,
                    },
                );
            },
        };
        match self.cohost_post(false, published) {
            Some(callout) => {
                out.append(trim(callout.as_str()));
            },
            None => {},
        }
        out.append("\n\n");
        if !self.headline.as_str().is_empty() {
            out.append("# ");
            out.append(self.headline.as_str());
            out.append("\n\n");
        } else {
            assert(out@ + Seq::<char>::empty() == out@);
        }
        let ghost before = out@;
        match render_blocks(&self.blocks, clock, out) {
            Ok(()) => {},
            Err(_) => {
                assert(old(out)@.is_prefix_of(before));
                return Err(
                    RenderError::UnresolvedTimestamp {
                        post_id: self.post_id,
                        field: TimestampField::SentAt,
                    },
                );
            },
        }
        render_tags(&self.tags, out);
        out.append("\n\n");
        Ok(())
    }

    /// Has the clock read every timestamp that the section of this post
    /// shows: the time of publishing, then the asks in their order. Stops at
    /// the first that cannot be read.
    pub fn learn(&self, clock: &mut Clock) -> (done: Result<(), RenderError>)
        ensures
            old(clock)@.submap_of(final(clock)@),
            readable(final(clock)@) == readable(old(clock)@),
            local_readings(old(clock)@) ==> local_readings(final(clock)@),
            done is Ok ==> self.known(final(clock)@.dom()),
            self.known(old(clock)@.dom()) ==> done is Ok && final(clock)@ == old(clock)@,
            !readable(old(clock)@).contains(self.published_at@) ==> done == Err::<
                (),
                RenderError,
            >(
                RenderError::UnresolvedTimestamp {
                    post_id: self.post_id,
                    field: TimestampField::PublishedAt,
                },
            ),
            done matches Err(error) ==> error is WriteFailure || Some(error) == self.unresolved(
                readable(old(clock)@),
            ),
            done matches Err(error) ==> error.post() == self.post_id,
            self.unresolved(readable(old(clock)@)) is Some ==> done is Err,
    {
        match clock.learn(self.published_at.as_str()) {
            Ok(()) => {},
            Err(error) => {
                return Err(RenderError::of_clock(error, self.post_id, TimestampField::PublishedAt));
            },
        }
        let ghost before = clock@;
        assert(readable(before).contains(self.published_at@));
        let learnt = learn_blocks(&self.blocks, clock);
        proof {
            lemma_readings_kept(old(clock)@, before, clock@);
        }
        match learnt {
            Ok(()) => Ok(()),
            Err(error) => Err(RenderError::of_clock(error, self.post_id, TimestampField::SentAt)),
        }
    }
}

} // verus!
