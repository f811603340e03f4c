//! The Markdown of each kind of block.

use crate::clock::{lemma_readings_kept, local_readings, readable, Clock, Stamp, StampView};
use crate::error::ClockFailure;
use crate::model::{Ask, Attachment, AudioAttachment, Block, ImageAttachment, Markdown};
use crate::text::{trim, trimmed};
use vstd::prelude::*;

verus! {

impl Markdown {
    /// The trimmed content on a line of its own, and an empty line.
    pub open spec fn text(&self) -> Seq<char> {
        trimmed(self.content@) + "\n\n"@
    }

    /// Writes the text at the end of `out`.
    pub fn render(&self, out: &mut String)
        ensures
            final(out)@ == old(out)@ + self.text(),
    {
        out.append(trim(self.content.as_str()));
        out.append("\n\n");
    }
}

impl ImageAttachment {
    /// The alternative text, empty where there is none.
    pub open spec fn alt(&self) -> Seq<char> {
        match self.alt_text {
            Some(alt) => alt@,
            None => Seq::empty(),
        }
    }

    /// `![alt](url)` and an empty line.
    pub open spec fn text(&self) -> Seq<char> {
        "!["@ + self.alt() + "]("@ + self.file_url@ + ")\n\n"@
    }

    /// Writes the picture at the end of `out`.
    pub fn render(&self, out: &mut String)
        ensures
            final(out)@ == old(out)@ + self.text(),
    {
        out.append("![");
        match &self.alt_text {
            Some(alt) => {
                out.append(alt.as_str());
            },
            None => {
                assert(out@ + Seq::<char>::empty() == out@);
            },
        }
        out.append("](");
        out.append(self.file_url.as_str());
        out.append(")\n\n");
    }
}

impl AudioAttachment {
    /// A figure with the player, title and artist as its caption, and a link
    /// to the file; then an empty line.
    pub open spec fn text(&self) -> Seq<char> {
        "<figure>\n\t<audio controls src=\""@ + self.file_url@
            + "\"></audio>\n\t<figcaption>\n\t\t<span>"@ + self.title@
            + "</span>\n\t\t<small>"@ + self.artist@ + "</small>\n\t</figcaption>\n\t<a href=\""@
            + self.file_url@ + "\">Direct Link</a>\n</figure>\n\n"@
    }

    /// Writes the figure at the end of `out`.
    pub fn render(&self, out: &mut String)
        ensures
            final(out)@ == old(out)@ + self.text(),
    {
        out.append("<figure>\n\t<audio controls src=\"");
        out.append(self.file_url.as_str());
        out.append("\"></audio>\n\t<figcaption>\n\t\t<span>");
        out.append(self.title.as_str());
        out.append("</span>\n\t\t<small>");
        out.append(self.artist.as_str());
        out.append("</small>\n\t</figcaption>\n\t<a href=\"");
        out.append(self.file_url.as_str());
        out.append("\">Direct Link</a>\n</figure>\n\n");
    }
}

impl Attachment {
    /// The text of the picture or of the recording.
    pub open spec fn text(&self) -> Seq<char> {
        match self {
            Attachment::Image(image) => image.text(),
            Attachment::Audio(audio) => audio.text(),
        }
    }

    /// Writes the attachment at the end of `out`.
    pub fn render(&self, out: &mut String)
        ensures
            final(out)@ == old(out)@ + self.text(),
    {
        match self {
            Attachment::Image(image) => image.render(out),
            Attachment::Audio(audio) => audio.render(out),
        }
    }
}

/// The name under which the front matter lists whoever asks without a name.
pub open spec fn anonymous_user() -> Seq<char> {
    "Anonymous User"@
}

impl Ask {
    /// Who asks, as the front matter lists them: the anonymous user, or the
    /// handle of the asking project. `None` for an ask that is neither
    /// anonymous nor names a project.
    pub open spec fn asker(&self) -> Option<Seq<char>> {
        if self.anon {
            Some(anonymous_user())
        } else {
            match self.asking_project {
                Some(project) => Some(project.handle@),
                None => None,
            }
        }
    }

    /// Who asks, as the callout says it: the anonymous user in bold, or a
    /// link to the profile of the asking project; nothing where the ask is
    /// neither anonymous nor names a project.
    pub open spec fn asker_text(&self) -> Seq<char> {
        if self.anon {
            "**Anonymous User** asked:"@
        } else {
            match self.asking_project {
                Some(project) => "[@"@ + project.handle@ + "](https://cohost.org/"@
                    + project.handle@ + ") asked:"@,
                None => Seq::empty(),
            }
        }
    }

    /// The callout line with the asker and the time of sending, the question
    /// as a second quoted line, and an empty line.
    pub open spec fn text(&self, sent: StampView) -> Seq<char> {
        ">[!cohost-ask] "@ + self.asker_text() + " <time datetime=\""@ + sent.machine + "\">"@
            + sent.display + "</time>\n>"@ + self.content@ + "\n\n"@
    }

    fn render_asker(&self, out: &mut String)
        ensures
            final(out)@ == old(out)@ + self.asker_text(),
    {
        if self.anon {
            out.append("**Anonymous User** asked:");
        } else {
            match &self.asking_project {
                Some(project) => {
                    out.append("[@");
                    out.append(project.handle.as_str());
                    out.append("](https://cohost.org/");
                    out.append(project.handle.as_str());
                    out.append(") asked:");
                },
                None => {
                    assert(out@ + Seq::<char>::empty() == out@);
                },
            }
        }
    }

    /// Writes the ask, with `sent` as the reading of the time it was sent at.
    pub fn render(&self, sent: &Stamp, out: &mut String)
        ensures
            final(out)@ == old(out)@ + self.text(sent@),
    {
        out.append(">[!cohost-ask] ");
        self.render_asker(out);
        out.append(" <time datetime=\"");
        out.append(sent.machine.as_str());
        out.append("\">");
        out.append(sent.display.as_str());
        out.append("</time>\n>");
        out.append(self.content.as_str());
        out.append("\n\n");
    }
}

/// The text of the members of a row, one after the other.
pub open spec fn members_text(members: Seq<Block>, clock: Map<Seq<char>, StampView>) -> Seq<char>
    decreases members.len(),
{
    if members.len() == 0 {
        Seq::empty()
    } else {
        members_text(members.drop_last(), clock) + members.last().member_text(clock)
    }
}

impl Block {
    /// Whether the one timestamp that this block shows as a member of a row,
    /// if it shows one, is among `known`.
    pub open spec fn member_known(&self, known: Set<Seq<char>>) -> bool {
        self matches Block::Ask { ask } ==> known.contains(ask.sent_at@)
    }

    /// Whether every timestamp that this block shows is among `known`.
    pub open spec fn known(&self, known: Set<Seq<char>>) -> bool {
        match self {
            Block::AttachmentRow { attachments } => forall|i: int|
                0 <= i < attachments@.len() ==> (#[trigger] attachments@[i]).member_known(known),
            _ => self.member_known(known),
        }
    }

    /// The text of this block as a member of a row. A row within a row shows
    /// nothing.
    pub open spec fn member_text(&self, clock: Map<Seq<char>, StampView>) -> Seq<char> {
        match self {
            Block::Markdown { markdown } => markdown.text(),
            Block::Attachment { attachment } => attachment.text(),
            Block::Ask { ask } => ask.text(clock[ask.sent_at@]),
            Block::AttachmentRow { .. } => Seq::empty(),
        }
    }

    /// The text of this block. A row shows its members back to back.
    pub open spec fn text(&self, clock: Map<Seq<char>, StampView>) -> Seq<char> {
        match self {
            Block::AttachmentRow { attachments } => members_text(attachments@, clock),
            _ => self.member_text(clock),
        }
    }

    fn render_member(&self, clock: &Clock, out: &mut String) -> (done: Result<(), ClockFailure>)
        ensures
            (done is Ok) == self.member_known(clock@.dom()),
            done is Ok ==> final(out)@ == old(out)@ + self.member_text(clock@),
            done is Err ==> done == Err::<(), ClockFailure>(ClockFailure::Unresolved) && final(out)@
                == old(out)@,
    {
        match self {
            Block::Markdown { markdown } => {
                markdown.render(out);
                Ok(())
            },
            Block::Attachment { attachment } => {
                attachment.render(out);
                Ok(())
            },
            Block::Ask { ask } => match clock.get(ask.sent_at.as_str()) {
                Some(sent) => {
                    ask.render(sent, out);
                    Ok(())
                },
                None => Err(ClockFailure::Unresolved),
            },
            Block::AttachmentRow { .. } => {
                assert(out@ + Seq::<char>::empty() == out@);
                Ok(())
            },
        }
    }

    /// Writes the block, with the clock's readings of the timestamps it shows.
    /// Fails where the clock lacks one of them; `out` then holds what came
    /// before the ask with that timestamp.
    pub fn render(&self, clock: &Clock, out: &mut String) -> (done: Result<(), ClockFailure>)
        ensures
            (done is Ok) == self.known(clock@.dom()),
            done is Ok ==> final(out)@ == old(out)@ + self.text(clock@),
            done is Err ==> done == Err::<(), ClockFailure>(ClockFailure::Unresolved) && old(
                out,
            )@.is_prefix_of(final(out)@),
    {
        match self {
            Block::AttachmentRow { attachments } => {
                let mut i: usize = 0;
                while i < attachments.len()
                    invariant
                        i <= attachments.len(),
                        self is AttachmentRow,
                        self->attachments@ == attachments@,
                        forall|j: int|
                            0 <= j < i ==> (#[trigger] attachments@[j]).member_known(clock@.dom()),
                        out@ == old(out)@ + members_text(attachments@.take(i as int), clock@),
                    decreases attachments.len() - i,
                {
                    match attachments[i].render_member(clock, out) {
                        Ok(()) => {},
                        Err(error) => {
                            assert(!attachments@[i as int].member_known(clock@.dom()));
                            return Err(error);
                        },
                    }
                    proof {
                        assert(attachments@.take(i + 1).drop_last() == attachments@.take(
                            i as int,
                        ));
                    }
                    i += 1;
                }
                proof {
                    assert(attachments@.take(i as int) == attachments@);
                }
                Ok(())
            },
            _ => self.render_member(clock, out),
        }
    }
    fn learn_member(&self, clock: &mut Clock) -> (done: Result<(), ClockFailure>)
        ensures
            old(clock)@.submap_of(final(clock)@),
            readable(final(clock)@) == readable(old(clock)@),
            local_readings(old(clock)@) ==> local_readings(final(clock)@),
            done is Ok ==> self.member_known(final(clock)@.dom()),
            self.member_known(old(clock)@.dom()) ==> done is Ok && final(clock)@ == old(clock)@,
            done == Err::<(), ClockFailure>(ClockFailure::Unresolved) ==> !self.member_known(
                readable(old(clock)@),
            ),
            !self.member_known(readable(old(clock)@)) ==> done is Err,
    {
        match self {
            Block::Ask { ask } => clock.learn(ask.sent_at.as_str()),
            _ => Ok(()),
        }
    }

    /// Has the clock read every timestamp that this block shows, in their
    /// order, up to the first that it cannot read.
    pub fn learn(&self, clock: &mut Clock) -> (done: Result<(), ClockFailure>)
        ensures
            old(clock)@.submap_of(final(clock)@),
            readable(final(clock)@) == readable(old(clock)@),
            local_readings(old(clock)@) ==> local_readings(final(clock)@),
            done is Ok ==> self.known(final(clock)@.dom()),
            self.known(old(clock)@.dom()) ==> done is Ok && final(clock)@ == old(clock)@,
            done == Err::<(), ClockFailure>(ClockFailure::Unresolved) ==> !self.known(
                readable(old(clock)@),
            ),
            !self.known(readable(old(clock)@)) ==> done is Err,
    {
        match self {
            Block::AttachmentRow { attachments } => {
                let mut i: usize = 0;
                while i < attachments.len()
                    invariant
                        i <= attachments.len(),
                        self is AttachmentRow,
                        self->attachments@ == attachments@,
                        old(clock)@.submap_of(clock@),
                        readable(clock@) == readable(old(clock)@),
                        local_readings(old(clock)@) ==> local_readings(clock@),
                        self.known(old(clock)@.dom()) ==> clock@ == old(clock)@,
                        forall|j: int|
                            0 <= j < i ==> (#[trigger] attachments@[j]).member_known(
                                clock@.dom(),
                            ),
                    decreases attachments.len() - i,
                {
                    let ghost before = clock@;
                    assert(self.known(old(clock)@.dom()) ==> attachments@[i as int].member_known(
                        old(clock)@.dom(),
                    ));
                    let learnt = attachments[i].learn_member(clock);
                    proof {
                        lemma_readings_kept(old(clock)@, before, clock@);
                    }
                    match learnt {
                        Ok(()) => {},
                        Err(error) => {
                            assert(error == ClockFailure::Unresolved
                                ==> !attachments@[i as int].member_known(readable(old(clock)@)));
                            return Err(error);
                        },
                    }
                    proof {
                        assert forall|j: int| 0 <= j < i + 1 implies (
                        #[trigger] attachments@[j]).member_known(clock@.dom()) by {
                            if j < i {
                                assert(attachments@[j].member_known(before.dom()));
                            }
                        }
                    }
                    i += 1;
                }
                proof {
                    assert forall|j: int| 0 <= j < attachments@.len() implies (
                    #[trigger] attachments@[j]).member_known(readable(old(clock)@)) by {
                        assert(attachments@[j].member_known(clock@.dom()));
                    }
                }
                Ok(())
            },
            _ => self.learn_member(clock),
        }
    }
}

/// The text of the blocks of a body, one after the other.
pub open spec fn blocks_text(blocks: Seq<Block>, clock: Map<Seq<char>, StampView>) -> Seq<char>
    decreases blocks.len(),
{
    if blocks.len() == 0 {
        Seq::empty()
    } else {
        blocks_text(blocks.drop_last(), clock) + blocks.last().text(clock)
    }
}

/// Whether every timestamp that the blocks show is among `known`.
pub open spec fn blocks_known(blocks: Seq<Block>, known: Set<Seq<char>>) -> bool {
    forall|i: int| 0 <= i < blocks.len() ==> (#[trigger] blocks[i]).known(known)
}

/// A block whose timestamps are known stays so when more are known.
pub proof fn lemma_known_grows(block: Block, fewer: Set<Seq<char>>, more: Set<Seq<char>>)
    requires
        fewer.subset_of(more),
        block.known(fewer),
    ensures
        block.known(more),
{
    match block {
        Block::AttachmentRow { attachments } => {
            assert forall|i: int| 0 <= i < attachments@.len() implies (
            #[trigger] attachments@[i]).member_known(more) by {
                assert(attachments@[i].member_known(fewer));
            }
        },
        _ => {},
    }
}

/// Writes the blocks of a body in their order. Fails at the first block
/// that shows a timestamp of which the clock has no reading.
pub fn render_blocks(blocks: &Vec<Block>, clock: &Clock, out: &mut String) -> (done: Result<
    (),
    ClockFailure,
>)
    ensures
        (done is Ok) == blocks_known(blocks@, clock@.dom()),
        done is Ok ==> final(out)@ == old(out)@ + blocks_text(blocks@, clock@),
        done is Err ==> done == Err::<(), ClockFailure>(ClockFailure::Unresolved) && old(
            out,
        )@.is_prefix_of(final(out)@),
{
    let mut i: usize = 0;
    while i < blocks.len()
        invariant
            i <= blocks.len(),
            forall|j: int| 0 <= j < i ==> (#[trigger] blocks@[j]).known(clock@.dom()),
            out@ == old(out)@ + blocks_text(blocks@.take(i as int), clock@),
        decreases blocks.len() - i,
    {
        match blocks[i].render(clock, out) {
            Ok(()) => {},
            Err(error) => {
                assert(!blocks@[i as int].known(clock@.dom()));
                return Err(error);
            },
        }
        proof {
            assert(blocks@.take(i + 1).drop_last() == blocks@.take(i as int));
        }
        i += 1;
    }
    proof {
        assert(blocks@.take(i as int) == blocks@);
    }
    Ok(())
}

/// Has the clock read every timestamp that the blocks show, in their order,
/// up to the first that it cannot read.
pub fn learn_blocks(blocks: &Vec<Block>, clock: &mut Clock) -> (done: Result<(), ClockFailure>)
    ensures
        old(clock)@.submap_of(final(clock)@),
        readable(final(clock)@) == readable(old(clock)@),
        local_readings(old(clock)@) ==> local_readings(final(clock)@),
        done is Ok ==> blocks_known(blocks@, final(clock)@.dom()),
        blocks_known(blocks@, old(clock)@.dom()) ==> done is Ok && final(clock)@ == old(clock)@,
        done == Err::<(), ClockFailure>(ClockFailure::Unresolved) ==> !blocks_known(
            blocks@,
            readable(old(clock)@),
        ),
        !blocks_known(blocks@, readable(old(clock)@)) ==> done is Err,
{
    let mut i: usize = 0;
    while i < blocks.len()
        invariant
            i <= blocks.len(),
            old(clock)@.submap_of(clock@),
            readable(clock@) == readable(old(clock)@),
            local_readings(old(clock)@) ==> local_readings(clock@),
            blocks_known(blocks@, old(clock)@.dom()) ==> clock@ == old(clock)@,
            forall|j: int| 0 <= j < i ==> (#[trigger] blocks@[j]).known(clock@.dom()),
        decreases blocks.len() - i,
    {
        let ghost before = clock@;
        assert(blocks_known(blocks@, old(clock)@.dom()) ==> blocks@[i as int].known(
            old(clock)@.dom(),
        ));
        let learnt = blocks[i].learn(clock);
        proof {
            lemma_readings_kept(old(clock)@, before, clock@);
        }
        match learnt {
            Ok(()) => {},
            Err(error) => {
                assert(error == ClockFailure::Unresolved ==> !blocks@[i as int].known(
                    readable(old(clock)@),
                ));
                return Err(error);
            },
        }
        proof {
            assert forall|j: int| 0 <= j < i + 1 implies (#[trigger] blocks@[j]).known(
                clock@.dom(),
            ) by {
                if j < i {
                    lemma_readings_kept(before, before, clock@);
                    lemma_known_grows(blocks@[j], before.dom(), clock@.dom());
                }
            }
        }
        i += 1;
    }
    proof {
        assert forall|j: int| 0 <= j < blocks@.len() implies (#[trigger] blocks@[j]).known(
            readable(old(clock)@),
        ) by {
            lemma_known_grows(blocks@[j], clock@.dom(), readable(clock@));
        }
    }
    Ok(())
}

} // verus!
