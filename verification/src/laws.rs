//! What holds of every document.

use crate::blocks::{blocks_known, blocks_text, members_text};
use crate::clock::StampView;
use crate::document::{tree_known, tree_text};
use crate::model::Block;
use crate::header::{list_text, post_mentions, tags_part, tree_mentions, tree_tags};
use crate::post::tag_line;
use crate::text::{is_white_space, lemma_trimmed_bare, trimmed};
use crate::model::Chost;
use crate::ordered::{
    absorb, first_seen, first_seen_keeps_each_once, lemma_absorb_concat, lemma_absorb_keeps, texts,
};
use vstd::prelude::*;
use vstd::seq_lib::lemma_seq_concat_contains_all_elements;

verus! {

/// The sections of the posts in `tree`, one after the other, whether a post
/// is a transparent share or not.
pub open spec fn sections_text(tree: Seq<Chost>, clock: Map<Seq<char>, StampView>) -> Seq<char>
    decreases tree.len(),
{
    if tree.len() == 0 {
        Seq::empty()
    } else {
        sections_text(tree.drop_last(), clock) + tree.last().section_text(clock)
    }
}

/// The document of a post that shares nothing and has an empty share tree
/// is its front matter and its own section: one callout of a post, and none
/// of a share.
pub proof fn plain_post_has_one_section(post: Chost, clock: Map<Seq<char>, StampView>)
    requires
        post.share_tree@.len() == 0,
        post.shared_id() is None,
    ensures
        post.callout_text(true, clock[post.published_at@]) is None,
        post.callout_text(false, clock[post.published_at@]) is Some,
        post.document_text(clock) == post.header_text(clock[post.published_at@])
            + post.section_text(clock),
{
}

/// A post whose shared post is not in its share tree has no callout of a
/// share, and its document is the front matter, the sections of the share
/// tree and its own section.
pub proof fn unresolved_share_has_no_callout(post: Chost, clock: Map<Seq<char>, StampView>)
    requires
        post.shared_index() is None,
    ensures
        post.callout_text(true, clock[post.published_at@]) is None,
        post.document_text(clock) == post.header_text(clock[post.published_at@]) + tree_text(
            post.share_tree@,
            clock,
        ) + post.section_text(clock),
{
}

/// The author of a post is the first of the users of its front matter,
/// whatever its share tree holds.
pub proof fn author_is_first_user(post: Chost)
    ensures
        post.header_users().len() > 0,
        post.header_users()[0] == post.posting_project.handle@,
{
    let author = seq![post.posting_project.handle@];
    let others = tree_mentions(post.share_tree@);
    lemma_absorb_concat(Seq::empty(), author, others);
    assert(author.drop_last() == Seq::<Seq<char>>::empty());
    assert(absorb(Seq::empty(), author.drop_last()) == Seq::<Seq<char>>::empty());
    assert(first_seen(author) == author);
    lemma_absorb_keeps(author, others);
    assert(post.header_users().subrange(0, 1) == author);
    assert(post.header_users().subrange(0, 1)[0] == author[0]);
}

/// The tags of a share tree are none exactly when no post of it has a tag.
pub proof fn lemma_tree_tags_none(tree: Seq<Chost>)
    ensures
        (tree_tags(tree).len() == 0) == (forall|i: int|
            0 <= i < tree.len() ==> (#[trigger] tree[i]).tags@.len() == 0),
    decreases tree.len(),
{
    if tree.len() > 0 {
        let front = tree.drop_last();
        lemma_tree_tags_none(front);
        if tree_tags(tree).len() == 0 {
            assert forall|i: int| 0 <= i < tree.len() implies (#[trigger] tree[i]).tags@.len()
                == 0 by {
                if i < front.len() {
                    assert(front[i].tags@.len() == 0);
                }
            }
        }
        if forall|i: int| 0 <= i < tree.len() ==> (#[trigger] tree[i]).tags@.len() == 0 {
            assert forall|i: int| 0 <= i < front.len() implies (#[trigger] front[i]).tags@.len()
                == 0 by {
                assert(tree[i].tags@.len() == 0);
            }
            assert(tree[tree.len() - 1].tags@.len() == 0);
        }
    }
}

/// The front matter has its list of tags exactly when this post or a post
/// of its share tree has a tag; without one, the key is left out too.
pub proof fn tags_are_listed_iff_any(post: Chost)
    ensures
        (post.header_tags().len() > 0) == (post.tags@.len() > 0 || exists|i: int|
            0 <= i < post.share_tree@.len() && (#[trigger] post.share_tree@[i]).tags@.len() > 0),
        (tags_part(post.header_tags()).len() > 0) == (post.header_tags().len() > 0),
        post.header_tags().len() == 0 ==> tags_part(post.header_tags()) == Seq::<char>::empty(),
        post.header_tags().len() > 0 ==> tags_part(post.header_tags()) == "cohost/tags:\n"@
            + list_text(post.header_tags()),
{
    reveal_strlit("cohost/tags:\n");
    let all = post.all_tags();
    first_seen_keeps_each_once(all);
    lemma_tree_tags_none(post.share_tree@);
    if all.len() > 0 {
        assert(all.contains(all[0]));
        let at = choose|at: int|
            0 <= at < first_seen(all).len() && first_seen(all)[at] == all[0];
    }
    if first_seen(all).len() > 0 {
        assert(first_seen(all).contains(first_seen(all)[0]));
        let at = choose|at: int| 0 <= at < all.len() && all[at] == first_seen(all)[0];
    }
}

/// Each post of the share tree, a transparent share or not, has its author
/// and its askers among the users of the front matter, and its tags among
/// the tags.
pub proof fn shared_post_is_in_front_matter(post: Chost, at: int)
    requires
        0 <= at < post.share_tree@.len(),
    ensures
        post.header_users().contains(post.share_tree@[at].posting_project.handle@),
        forall|name: Seq<char>| #[trigger]
            post_mentions(post.share_tree@[at]).contains(name) ==> post.header_users().contains(
                name,
            ),
        forall|tag: Seq<char>| #[trigger]
            texts(post.share_tree@[at].tags@).contains(tag) ==> post.header_tags().contains(tag),
{
    let tree = post.share_tree@;
    let author = seq![post.posting_project.handle@];
    lemma_tree_holds(tree, at);
    first_seen_keeps_each_once(post.mentions());
    first_seen_keeps_each_once(post.all_tags());
    assert(post_mentions(tree[at]).last() == tree[at].posting_project.handle@);
    assert(post_mentions(tree[at]).contains(tree[at].posting_project.handle@));
    assert forall|name: Seq<char>| #[trigger]
        post_mentions(tree[at]).contains(name) implies post.header_users().contains(name) by {
        lemma_seq_concat_contains_all_elements(author, tree_mentions(tree), name);
        assert(first_seen(post.mentions()).contains(name));
    }
    assert forall|tag: Seq<char>| #[trigger]
        texts(tree[at].tags@).contains(tag) implies post.header_tags().contains(tag) by {
        lemma_seq_concat_contains_all_elements(texts(post.tags@), tree_tags(tree), tag);
        assert(first_seen(post.all_tags()).contains(tag));
    }
}

/// What a share tree brings to the front matter holds what each of its
/// posts brings.
pub proof fn lemma_tree_holds(tree: Seq<Chost>, at: int)
    requires
        0 <= at < tree.len(),
    ensures
        forall|name: Seq<char>| #[trigger]
            post_mentions(tree[at]).contains(name) ==> tree_mentions(tree).contains(name),
        forall|tag: Seq<char>| #[trigger]
            texts(tree[at].tags@).contains(tag) ==> tree_tags(tree).contains(tag),
    decreases tree.len(),
{
    let front = tree.drop_last();
    if at < tree.len() - 1 {
        lemma_tree_holds(front, at);
        assert(front[at] == tree[at]);
    }
    assert forall|name: Seq<char>| #[trigger]
        post_mentions(tree[at]).contains(name) implies tree_mentions(tree).contains(name) by {
        lemma_seq_concat_contains_all_elements(
            tree_mentions(front),
            post_mentions(tree.last()),
            name,
        );
    }
    assert forall|tag: Seq<char>| #[trigger]
        texts(tree[at].tags@).contains(tag) implies tree_tags(tree).contains(tag) by {
        lemma_seq_concat_contains_all_elements(tree_tags(front), texts(tree.last().tags@), tag);
    }
}

/// The sections of a share tree are those of its posts that are no
/// transparent shares, in the order of the tree: a transparent share has
/// no section of its own.
pub proof fn transparent_shares_have_no_section(
    tree: Seq<Chost>,
    clock: Map<Seq<char>, StampView>,
)
    ensures
        tree_text(tree, clock) == sections_text(tree.filter(|post: Chost| post.is_shown()), clock),
    decreases tree.len(),
{
    let shown = |post: Chost| post.is_shown();
    if tree.len() == 0 {
        assert(tree.filter(shown).len() == 0) by {
            tree.lemma_filter_len(shown);
        }
    } else {
        let front = tree.drop_last();
        transparent_shares_have_no_section(front, clock);
        assert(tree == front.push(tree.last()));
        front.lemma_filter_push(tree.last(), shown);
        if tree.last().is_shown() {
            assert(tree.filter(shown).drop_last() == front.filter(shown));
        } else {
            assert(tree_text(front, clock) + Seq::<char>::empty() == tree_text(front, clock));
        }
    }
}

/// Two clocks read each text of `on` alike.
pub open spec fn agree(
    first: Map<Seq<char>, StampView>,
    second: Map<Seq<char>, StampView>,
    on: Set<Seq<char>>,
) -> bool {
    forall|text: Seq<char>| on.contains(text) ==> first[text] == second[text]
}

/// The members of a row read of the clock only their own timestamps.
pub proof fn lemma_members_agree(
    members: Seq<Block>,
    first: Map<Seq<char>, StampView>,
    second: Map<Seq<char>, StampView>,
    on: Set<Seq<char>>,
)
    requires
        agree(first, second, on),
        forall|i: int| 0 <= i < members.len() ==> (#[trigger] members[i]).member_known(on),
    ensures
        members_text(members, first) == members_text(members, second),
    decreases members.len(),
{
    if members.len() > 0 {
        let front = members.drop_last();
        assert forall|i: int| 0 <= i < front.len() implies (#[trigger] front[i]).member_known(
            on,
        ) by {
            assert(members[i].member_known(on));
        }
        lemma_members_agree(front, first, second, on);
        assert(members[members.len() - 1].member_known(on));
    }
}

/// The blocks of a body read of the clock only their own timestamps.
pub proof fn lemma_blocks_agree(
    blocks: Seq<Block>,
    first: Map<Seq<char>, StampView>,
    second: Map<Seq<char>, StampView>,
    on: Set<Seq<char>>,
)
    requires
        agree(first, second, on),
        blocks_known(blocks, on),
    ensures
        blocks_text(blocks, first) == blocks_text(blocks, second),
    decreases blocks.len(),
{
    if blocks.len() > 0 {
        let front = blocks.drop_last();
        assert forall|i: int| 0 <= i < front.len() implies (#[trigger] front[i]).known(on) by {
            assert(blocks[i].known(on));
        }
        lemma_blocks_agree(front, first, second, on);
        assert(blocks[blocks.len() - 1].known(on));
        match blocks.last() {
            Block::AttachmentRow { attachments } => {
                lemma_members_agree(attachments@, first, second, on);
            },
            _ => {},
        }
    }
}

/// The sections of a share tree read of the clock only their own
/// timestamps.
pub proof fn lemma_tree_agrees(
    tree: Seq<Chost>,
    first: Map<Seq<char>, StampView>,
    second: Map<Seq<char>, StampView>,
    on: Set<Seq<char>>,
)
    requires
        agree(first, second, on),
        tree_known(tree, on),
    ensures
        tree_text(tree, first) == tree_text(tree, second),
    decreases tree.len(),
{
    if tree.len() > 0 {
        let front = tree.drop_last();
        assert forall|i: int| 0 <= i < front.len() && (#[trigger] front[i]).is_shown() implies front[i].known(
            on,
        ) by {
            assert(tree[i].is_shown());
        }
        lemma_tree_agrees(front, first, second, on);
        if tree.last().is_shown() {
            assert(tree[tree.len() - 1].is_shown());
            lemma_blocks_agree(tree.last().blocks@, first, second, on);
        }
    }
}

/// A document is settled by the post and by how its timestamps read: two
/// clocks that read alike each timestamp that the document shows give the
/// same document, character for character.
pub proof fn same_readings_same_document(
    post: Chost,
    first: Map<Seq<char>, StampView>,
    second: Map<Seq<char>, StampView>,
    on: Set<Seq<char>>,
)
    requires
        post.document_known(on),
        agree(first, second, on),
    ensures
        post.document_text(first) == post.document_text(second),
{
    lemma_tree_agrees(post.share_tree@, first, second, on);
    lemma_blocks_agree(post.blocks@, first, second, on);
}

/// The callout of a post, once trimmed, is the callout without its line
/// end: it begins with `>` and ends with the `>` that closes the time.
pub proof fn post_callout_loses_its_line_end(post: Chost, published: StampView)
    ensures
        trimmed(post.callout_text(false, published)->0) == post.callout_head(false, published),
{
    reveal_strlit(">[!cohost-");
    reveal_strlit("</time>");
    reveal_strlit("\n");
    let head = post.callout_head(false, published);
    assert(head.first() == ">[!cohost-"@[0]);
    assert(head.last() == "</time>"@[6]);
    assert(!is_white_space(head.first()));
    assert(!is_white_space(head.last()));
    assert(is_white_space("\n"@[0]));
    lemma_trimmed_bare(head, "\n"@);
}

/// The section of a post begins with its callout, which ends with the time
/// and is followed by an empty line.
pub proof fn section_begins_with_callout(post: Chost, clock: Map<Seq<char>, StampView>)
    ensures
        post.section_text(clock) == post.callout_head(false, clock[post.published_at@]) + "\n\n"@
            + post.headline_text() + blocks_text(post.blocks@, clock) + tag_line(
            texts(post.tags@),
        ) + "\n\n"@,
{
    post_callout_loses_its_line_end(post, clock[post.published_at@]);
}

/// The first lines of each document: the opening of the front matter, the
/// date, the key of the users, and the author of the post as the first user.
pub open spec fn first_lines(post: Chost, published: StampView) -> Seq<char> {
    "---\ncohost/date: "@ + published.machine + "\ncohost/users:\n"@ + "  - "@
        + post.posting_project.handle@ + "\n"@
}

/// A text that begins another still begins it when more is put behind.
pub proof fn lemma_begins(start: Seq<char>, text: Seq<char>, more: Seq<char>)
    requires
        start.is_prefix_of(text),
    ensures
        start.is_prefix_of(text + more),
{
    assert(start == (text + more).subrange(0, start.len() as int));
}

/// A list that has items begins with the line of its first item.
pub proof fn lemma_list_begins(items: Seq<Seq<char>>)
    requires
        items.len() > 0,
    ensures
        ("  - "@ + items[0] + "\n"@).is_prefix_of(list_text(items)),
    decreases items.len(),
{
    let line = "  - "@ + items[0] + "\n"@;
    if items.len() == 1 {
        assert(list_text(items.drop_last()) == Seq::<char>::empty());
        assert(list_text(items) == line);
        assert(line == list_text(items).subrange(0, line.len() as int));
    } else {
        lemma_list_begins(items.drop_last());
        assert(items.drop_last()[0] == items[0]);
        lemma_begins(line, list_text(items.drop_last()), "  - "@ + items.last() + "\n"@);
        assert(list_text(items) == list_text(items.drop_last()) + ("  - "@ + items.last()
            + "\n"@));
    }
}

/// Each document begins with its front matter, and the first user that the
/// front matter lists is the author of the post.
pub proof fn document_begins_with_author(post: Chost, clock: Map<Seq<char>, StampView>)
    ensures
        post.header_text(clock[post.published_at@]).is_prefix_of(post.document_text(clock)),
        first_lines(post, clock[post.published_at@]).is_prefix_of(post.document_text(clock)),
{
    let published = clock[post.published_at@];
    let header = post.header_text(published);
    let rest = post.share_callout_text(published) + tree_text(post.share_tree@, clock)
        + post.section_text(clock);
    assert(post.document_text(clock) == header + rest);
    assert(header == (header + rest).subrange(0, header.len() as int));
    author_is_first_user(post);
    lemma_list_begins(post.header_users());
    let opening = "---\ncohost/date: "@ + published.machine + "\ncohost/users:\n"@;
    let line = "  - "@ + post.posting_project.handle@ + "\n"@;
    let users = list_text(post.header_users());
    let after = tags_part(post.header_tags()) + "cohost/original-post: "@
        + post.single_post_page_url@
        + "\ncohost/archived-post: https://web.archive.org/web/*/"@
        + post.single_post_page_url@ + "\n---\n"@;
    assert(line == users.subrange(0, line.len() as int));
    assert(header == opening + users + after);
    assert(first_lines(post, published) == opening + line);
    assert(first_lines(post, published) == (opening + users + after + rest).subrange(
        0,
        first_lines(post, published).len() as int,
    ));
    assert(post.document_text(clock) == opening + users + after + rest);
}

/// What a post renders to in local time begins with its front matter, under
/// some reading of its time of publishing, and so with the author as the
/// first user; the users and the tags that follow are those of
/// [`Chost::header_users`] and [`Chost::header_tags`].
pub proof fn rendered_begins_with_front_matter(post: Chost, text: Seq<char>)
    requires
        post.is_document(text),
    ensures
        exists|published: StampView|
            post.header_text(published).is_prefix_of(text) && #[trigger] first_lines(
                post,
                published,
            ).is_prefix_of(text),
{
    let clock = choose|clock: Map<Seq<char>, StampView>|
        crate::clock::local_readings(clock) && post.document_known(clock.dom())
            && #[trigger] post.document_text(clock) == text;
    document_begins_with_author(post, clock);
    let published = clock[post.published_at@];
    assert(first_lines(post, published).is_prefix_of(text));
}

/// What a post that shares nothing and has an empty share tree renders to
/// in local time is its front matter and one section, which begins with the
/// callout of a post; there is no callout of a share.
pub proof fn rendered_plain_post_has_one_section(post: Chost, text: Seq<char>)
    requires
        post.is_document(text),
        post.share_tree@.len() == 0,
        post.shared_id() is None,
    ensures
        exists|clock: Map<Seq<char>, StampView>| #[trigger]
            post.document_known(clock.dom()) && text == post.header_text(
                clock[post.published_at@],
            ) + post.callout_head(false, clock[post.published_at@]) + "\n\n"@
                + post.headline_text() + blocks_text(post.blocks@, clock) + tag_line(
                texts(post.tags@),
            ) + "\n\n"@,
{
    let clock = choose|clock: Map<Seq<char>, StampView>|
        crate::clock::local_readings(clock) && post.document_known(clock.dom())
            && #[trigger] post.document_text(clock) == text;
    plain_post_has_one_section(post, clock);
    section_begins_with_callout(post, clock);
    let header = post.header_text(clock[post.published_at@]);
    let head = post.callout_head(false, clock[post.published_at@]);
    assert(text == header + post.section_text(clock));
    assert(text == header + head + "\n\n"@ + post.headline_text() + blocks_text(
        post.blocks@,
        clock,
    ) + tag_line(texts(post.tags@)) + "\n\n"@);
}

/// What a post renders to in local time holds a section for each post of
/// the share tree that is no transparent share, in the order of the tree,
/// and for no other.
pub proof fn rendered_has_no_section_for_transparent_shares(post: Chost, text: Seq<char>)
    requires
        post.is_document(text),
    ensures
        exists|clock: Map<Seq<char>, StampView>| #[trigger]
            post.document_known(clock.dom()) && text == post.header_text(
                clock[post.published_at@],
            ) + post.share_callout_text(clock[post.published_at@]) + sections_text(
                post.share_tree@.filter(|shared: Chost| shared.is_shown()),
                clock,
            ) + post.section_text(clock),
{
    let clock = choose|clock: Map<Seq<char>, StampView>|
        crate::clock::local_readings(clock) && post.document_known(clock.dom())
            && #[trigger] post.document_text(clock) == text;
    transparent_shares_have_no_section(post.share_tree@, clock);
}

} // verus!
