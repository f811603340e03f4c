//! The whole document of a post: front matter, the callout of a share, the
//! sections of the posts it shares and its own section.

use crate::blocks::lemma_known_grows;
use crate::clock::{
    is_timestamp, lemma_readings_kept, local_readings, readable, Clock, StampView,
};
use crate::error::{RenderError, TimestampField};
use crate::model::Chost;
use crate::text::{trim, trimmed};
use vstd::prelude::*;

verus! {

/// The sections of the posts of a share tree, in the order of the tree. A
/// post that is itself a transparent share has no section.
pub open spec fn tree_text(tree: Seq<Chost>, clock: Map<Seq<char>, StampView>) -> Seq<char>
    decreases tree.len(),
{
    if tree.len() == 0 {
        Seq::empty()
    } else {
        tree_text(tree.drop_last(), clock) + (if tree.last().is_shown() {
            tree.last().section_text(clock)
        } else {
            Seq::empty()
        })
    }
}

/// Whether every timestamp that the sections of a share tree show is among
/// `known`.
pub open spec fn tree_known(tree: Seq<Chost>, known: Set<Seq<char>>) -> bool {
    forall|i: int| 0 <= i < tree.len() && (#[trigger] tree[i]).is_shown() ==> tree[i].known(known)
}

/// The error of the first post of a share tree, among those that have a
/// section, of which not all timestamps are among `known`.
pub open spec fn tree_unresolved(tree: Seq<Chost>, known: Set<Seq<char>>) -> Option<RenderError>
    decreases tree.len(),
{
    if tree.len() == 0 {
        None
    } else {
        match tree_unresolved(tree.drop_last(), known) {
            Some(error) => Some(error),
            None => if tree.last().is_shown() {
                tree.last().unresolved(known)
            } else {
                None
            },
        }
    }
}

/// Whether a post of the tree that has a section of its own has the given
/// identifier.
pub open spec fn tree_shows(tree: Seq<Chost>, post_id: u64) -> bool {
    exists|i: int| 0 <= i < tree.len() && (#[trigger] tree[i]).is_shown() && tree[i].post_id == post_id
}

/// The texts that are timestamps.
pub open spec fn timestamps() -> Set<Seq<char>> {
    Set::new(|text: Seq<char>| is_timestamp(text))
}

/// A post whose timestamps are known stays so when more are known.
pub proof fn lemma_post_known_grows(post: Chost, fewer: Set<Seq<char>>, more: Set<Seq<char>>)
    requires
        fewer.subset_of(more),
        post.known(fewer),
    ensures
        post.known(more),
{
    assert forall|i: int| 0 <= i < post.blocks@.len() implies (#[trigger] post.blocks@[i]).known(
        more,
    ) by {
        lemma_known_grows(post.blocks@[i], fewer, more);
    }
}

/// The error that a part of a share tree has is the error of the whole
/// tree.
pub proof fn lemma_first_unresolved_stays(tree: Seq<Chost>, upto: int, known: Set<Seq<char>>)
    requires
        0 <= upto <= tree.len(),
        tree_unresolved(tree.take(upto), known) is Some,
    ensures
        tree_unresolved(tree, known) == tree_unresolved(tree.take(upto), known),
    decreases tree.len() - upto,
{
    if upto == tree.len() {
        assert(tree.take(upto) == tree);
    } else {
        assert(tree.drop_last().take(upto) == tree.take(upto));
        lemma_first_unresolved_stays(tree.drop_last(), upto, known);
    }
}

/// A share tree has no error exactly when all the timestamps that its
/// sections show are known.
pub proof fn lemma_tree_known(tree: Seq<Chost>, known: Set<Seq<char>>)
    ensures
        tree_known(tree, known) == (tree_unresolved(tree, known) is None),
    decreases tree.len(),
{
    if tree.len() > 0 {
        lemma_tree_known(tree.drop_last(), known);
        let front = tree.drop_last();
        if tree_known(tree, known) {
            assert forall|i: int| 0 <= i < front.len() && (#[trigger] front[i]).is_shown() implies front[i].known(
                known,
            ) by {
                assert(tree[i].is_shown());
            }
            assert(tree[tree.len() - 1].is_shown() ==> tree.last().known(known));
        }
        if tree_unresolved(tree, known) is None {
            assert forall|i: int| 0 <= i < tree.len() && (#[trigger] tree[i]).is_shown() implies tree[i].known(
                known,
            ) by {
                if i < front.len() {
                    assert(front[i].is_shown());
                }
            }
        }
    }
}

/// Writes the sections of the posts of a share tree. Fails at the first
/// post that shows a timestamp of which the clock has no reading.
pub fn render_tree(tree: &Vec<Chost>, clock: &Clock, out: &mut String) -> (done: Result<
    (),
    RenderError,
>)
    ensures
        (done is Ok) == tree_known(tree@, clock@.dom()),
        done is Ok ==> final(out)@ == old(out)@ + tree_text(tree@, clock@),
        done matches Err(error) ==> Some(error) == tree_unresolved(tree@, clock@.dom()) && old(
            out,
        )@.is_prefix_of(final(out)@),
{
    let mut i: usize = 0;
    while i < tree.len()
        invariant
            i <= tree.len(),
            tree_unresolved(tree@.take(i as int), clock@.dom()) is None,
            out@ == old(out)@ + tree_text(tree@.take(i as int), clock@),
        decreases tree.len() - i,
    {
        proof {
            assert(tree@.take(i + 1).drop_last() == tree@.take(i as int));
            assert(tree@.take(i + 1).last() == tree@[i as int]);
        }
        if tree[i].transparent_share_of_post_id.is_none() {
            match tree[i].render(clock, out) {
                Ok(()) => {},
                Err(error) => {
                    proof {
                        lemma_first_unresolved_stays(tree@, i + 1, clock@.dom());
                        lemma_tree_known(tree@, clock@.dom());
                    }
                    return Err(error);
                },
            }
        } else {
            assert(out@ + Seq::<char>::empty() == out@);
        }
        i += 1;
    }
    proof {
        assert(tree@.take(i as int) == tree@);
        lemma_tree_known(tree@, clock@.dom());
    }
    Ok(())
}

/// Has the clock read every timestamp that the sections of a share tree
/// show, in their order, up to the first that it cannot read.
pub fn learn_tree(tree: &Vec<Chost>, clock: &mut Clock) -> (done: Result<(), RenderError>)
    ensures
        old(clock)@.submap_of(final(clock)@),
        readable(final(clock)@) == readable(old(clock)@),
        local_readings(old(clock)@) ==> local_readings(final(clock)@),
        done is Ok ==> tree_known(tree@, final(clock)@.dom()),
        tree_known(tree@, old(clock)@.dom()) ==> done is Ok && final(clock)@ == old(clock)@,
        done matches Err(error) ==> error is WriteFailure || Some(error) == tree_unresolved(
            tree@,
            readable(old(clock)@),
        ),
        done matches Err(error) ==> tree_shows(tree@, error.post()),
        tree_unresolved(tree@, readable(old(clock)@)) is Some ==> done is Err,
{
    let mut i: usize = 0;
    while i < tree.len()
        invariant
            i <= tree.len(),
            old(clock)@.submap_of(clock@),
            readable(clock@) == readable(old(clock)@),
            local_readings(old(clock)@) ==> local_readings(clock@),
            tree_unresolved(tree@.take(i as int), readable(old(clock)@)) is None,
            tree_known(tree@.take(i as int), clock@.dom()),
            tree_known(tree@, old(clock)@.dom()) ==> clock@ == old(clock)@,
        decreases tree.len() - i,
    {
        let ghost before = clock@;
        proof {
            assert(tree@.take(i + 1).drop_last() == tree@.take(i as int));
            assert(tree@.take(i + 1).last() == tree@[i as int]);
        }
        if tree[i].transparent_share_of_post_id.is_none() {
            assert(tree@[i as int].is_shown());
            let learnt = tree[i].learn(clock);
            proof {
                lemma_readings_kept(old(clock)@, before, clock@);
            }
            match learnt {
                Ok(()) => {},
                Err(error) => {
                    proof {
                        assert(tree_shows(tree@, error.post()));
                        if !(error is WriteFailure) {
                            lemma_first_unresolved_stays(tree@, i + 1, readable(old(clock)@));
                        }
                    }
                    return Err(error);
                },
            }
        }
        proof {
            lemma_readings_kept(before, before, clock@);
            assert forall|j: int|
                0 <= j < i + 1 && (#[trigger] tree@.take(i + 1)[j]).is_shown() implies tree@.take(
                i + 1,
            )[j].known(clock@.dom()) by {
                if j < i {
                    assert(tree@.take(i as int)[j].is_shown());
                    lemma_post_known_grows(tree@[j], before.dom(), clock@.dom());
                }
            }
        }
        i += 1;
    }
    proof {
        assert(tree@.take(i as int) == tree@);
    }
    Ok(())
}

impl Chost {
    /// Whether this post has a section of its own in the document of a post
    /// that shares it: it has one unless it is itself a transparent share.
    pub open spec fn is_shown(&self) -> bool {
        self.transparent_share_of_post_id is None
    }

    /// The callout of a share, trimmed, and an empty line; nothing where
    /// this post shares nothing or the shared post is not in the share tree.
    pub open spec fn share_callout_text(&self, published: StampView) -> Seq<char> {
        match self.callout_text(true, published) {
            Some(callout) => trimmed(callout) + "\n\n"@,
            None => Seq::empty(),
        }
    }

    /// The document of this post: the front matter, the callout of a share,
    /// the sections of the share tree, and the section of this post.
    pub open spec fn document_text(&self, clock: Map<Seq<char>, StampView>) -> Seq<char> {
        self.header_text(clock[self.published_at@]) + self.share_callout_text(
            clock[self.published_at@],
        ) + tree_text(self.share_tree@, clock) + self.section_text(clock)
    }

    /// Whether `text` is the document of this post in local time: that of a
    /// clock which has a reading for each timestamp that the document shows,
    /// each reading being how its timestamp reads at some offset from UTC.
    pub open spec fn is_document(&self, text: Seq<char>) -> bool {
        exists|clock: Map<Seq<char>, StampView>|
            local_readings(clock) && self.document_known(clock.dom())
                && #[trigger] self.document_text(clock) == text
    }

    /// Whether every timestamp that the document shows is among `known`.
    pub open spec fn document_known(&self, known: Set<Seq<char>>) -> bool {
        self.known(known) && tree_known(self.share_tree@, known)
    }

    /// The error of the document where not all its timestamps are among
    /// `known`: that of the first such timestamp in the order of the
    /// document, which begins with the time at which this post was published
    /// and ends with the asks of this post.
    pub open spec fn document_unresolved(&self, known: Set<Seq<char>>) -> Option<RenderError> {
        if !known.contains(self.published_at@) {
            self.unresolved(known)
        } else {
            match tree_unresolved(self.share_tree@, known) {
                Some(error) => Some(error),
                None => self.unresolved(known),
            }
        }
    }

    /// The document of this post, with the clock's readings of the
    /// timestamps it shows. Fails where the clock lacks one of them.
    pub fn generate_markdown_with(&self, clock: &Clock) -> (done: Result<String, RenderError>)
        ensures
            (done is Ok) == self.document_known(clock@.dom()),
            done matches Ok(text) ==> text@ == self.document_text(clock@),
            done matches Err(error) ==> Some(error) == self.document_unresolved(clock@.dom()),
    {
        let published = match clock.get(self.published_at.as_str()) {
            Some(published) => published,
            None => {
                return Err(
                    RenderError::UnresolvedTimestamp {
                        post_id: self.post_id,
                        field: TimestampField::PublishedAt,
                    },
                );
            },
        };
        let mut md = String::new();
        self.render_header(published, &mut md);
        match self.cohost_post(true, published) {
            Some(callout) => {
                md.append(trim(callout.as_str()));
                md.append("\n\n");
            },
            None => {
                assert(md@ + Seq::<char>::empty() == md@);
            },
        }
        proof {
            lemma_tree_known(self.share_tree@, clock@.dom());
        }
        match render_tree(&self.share_tree, clock, &mut md) {
            Ok(()) => {},
            Err(error) => {
                return Err(error);
            },
        }
        match self.render(clock, &mut md) {
            Ok(()) => {},
            Err(error) => {
                return Err(error);
            },
        }
        Ok(md)
    }

    /// Has the clock read every timestamp that the document shows, in the
    /// order of the document, up to the first that it cannot read.
    pub fn learn_document(&self, clock: &mut Clock) -> (done: Result<(), RenderError>)
        ensures
            old(clock)@.submap_of(final(clock)@),
            readable(final(clock)@) == readable(old(clock)@),
            local_readings(old(clock)@) ==> local_readings(final(clock)@),
            done is Ok ==> self.document_known(final(clock)@.dom()),
            self.document_known(old(clock)@.dom()) ==> done is Ok && final(clock)@ == old(
                clock,
            )@,
            !readable(old(clock)@).contains(self.published_at@) ==> done == Err::<
                (),
                RenderError,
            >(
                RenderError::UnresolvedTimestamp {
                    post_id: self.post_id,
                    field: TimestampField::PublishedAt,
                },
            ),
            done matches Err(error) ==> error is WriteFailure || Some(error)
                == self.document_unresolved(readable(old(clock)@)),
            done matches Err(error) ==> error.post() == self.post_id || tree_shows(
                self.share_tree@,
                error.post(),
            ),
            self.document_unresolved(readable(old(clock)@)) is Some ==> done is Err,
    {
        match clock.learn(self.published_at.as_str()) {
            Ok(()) => {},
            Err(error) => {
                return Err(RenderError::of_clock(error, self.post_id, TimestampField::PublishedAt));
            },
        }
        let ghost first = clock@;
        assert(readable(first).contains(self.published_at@));
        let shared = learn_tree(&self.share_tree, clock);
        let ghost second = clock@;
        proof {
            lemma_readings_kept(old(clock)@, first, second);
        }
        match shared {
            Ok(()) => {},
            Err(error) => {
                return Err(error);
            },
        }
        let own = self.learn(clock);
        proof {
            lemma_readings_kept(old(clock)@, second, clock@);
            lemma_readings_kept(second, second, clock@);
            lemma_tree_known(self.share_tree@, readable(old(clock)@));
            if own is Ok {
                assert forall|i: int|
                    0 <= i < self.share_tree@.len() && (
                    #[trigger] self.share_tree@[i]).is_shown() implies self.share_tree@[i].known(
                    clock@.dom(),
                ) by {
                    lemma_post_known_grows(self.share_tree@[i], second.dom(), clock@.dom());
                }
            }
        }
        own
    }

    /// The document of this post, with each timestamp read in the time zone
    /// of this machine.
    ///
    /// The document is that of a clock which reads each timestamp at some
    /// offset from UTC, the two forms of one timestamp at the same offset. It
    /// fails where a text that it shows as a time is no timestamp, with the
    /// error of the first such in the order of the document, or where a
    /// timestamp could not be written out. An error names this post or a
    /// post of the share tree that has a section; where the time of
    /// publishing of this post is no timestamp, the error is that.
    pub fn generate_markdown(&self) -> (done: Result<String, RenderError>)
        ensures
            done matches Ok(text) ==> self.is_document(text@),
            !is_timestamp(self.published_at@) ==> done == Err::<String, RenderError>(
                RenderError::UnresolvedTimestamp {
                    post_id: self.post_id,
                    field: TimestampField::PublishedAt,
                },
            ),
            done matches Err(error) ==> error is WriteFailure || Some(error)
                == self.document_unresolved(timestamps()),
            done matches Err(error) ==> error.post() == self.post_id || tree_shows(
                self.share_tree@,
                error.post(),
            ),
            self.document_unresolved(timestamps()) is Some ==> done is Err,
    {
        let mut clock = Clock::new();
        assert(readable(clock@) =~= timestamps());
        match self.learn_document(&mut clock) {
            Ok(()) => {},
            Err(error) => {
                return Err(error);
            },
        }
        self.generate_markdown_with(&clock)
    }
}

/// The document of a post, with each timestamp read in the time zone of
/// this machine: [`Chost::generate_markdown`] under the name by which a
/// caller that only renders knows it.
pub fn render(post: &Chost) -> (done: Result<String, RenderError>)
    ensures
        done matches Ok(text) ==> post.is_document(text@),
        !is_timestamp(post.published_at@) ==> done == Err::<String, RenderError>(
            RenderError::UnresolvedTimestamp {
                post_id: post.post_id,
                field: TimestampField::PublishedAt,
            },
        ),
        done matches Err(error) ==> error is WriteFailure || Some(error)
            == post.document_unresolved(timestamps()),
        done matches Err(error) ==> error.post() == post.post_id || tree_shows(
            post.share_tree@,
            error.post(),
        ),
        post.document_unresolved(timestamps()) is Some ==> done is Err,
{
    post.generate_markdown()
}

} // verus!
