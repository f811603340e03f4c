//! The front matter of a document: date, users, tags and the two links.

use crate::blocks::anonymous_user;
use crate::clock::{Stamp, StampView};
use crate::model::{Block, Chost};
use crate::ordered::{
    absorb, empty_set, first_seen, has_no_items, insert_all, insert_item, into_items,
    lemma_absorb_concat, set_items, texts,
};
use indexmap::IndexSet;
use vstd::prelude::*;

verus! {

/// Whom a block names as asking: the asker of an ask that stands in the
/// body itself, where it has one.
pub open spec fn asker_of(block: Block) -> Seq<Seq<char>> {
    match block {
        Block::Ask { ask } => match ask.asker() {
            Some(name) => seq![name],
            None => Seq::empty(),
        },
        _ => Seq::empty(),
    }
}

/// The askers of a body, in the order of its blocks.
pub open spec fn askers(blocks: Seq<Block>) -> Seq<Seq<char>>
    decreases blocks.len(),
{
    if blocks.len() == 0 {
        Seq::empty()
    } else {
        askers(blocks.drop_last()) + asker_of(blocks.last())
    }
}

/// Whom a shared post brings to the list of users: its askers, then its
/// author.
pub open spec fn post_mentions(post: Chost) -> Seq<Seq<char>> {
    askers(post.blocks@).push(post.posting_project.handle@)
}

/// Whom the posts of a share tree bring to the list of users, in the order
/// of the tree.
pub open spec fn tree_mentions(tree: Seq<Chost>) -> Seq<Seq<char>>
    decreases tree.len(),
{
    if tree.len() == 0 {
        Seq::empty()
    } else {
        tree_mentions(tree.drop_last()) + post_mentions(tree.last())
    }
}

/// The tags of the posts of a share tree, in the order of the tree.
pub open spec fn tree_tags(tree: Seq<Chost>) -> Seq<Seq<char>>
    decreases tree.len(),
{
    if tree.len() == 0 {
        Seq::empty()
    } else {
        tree_tags(tree.drop_last()) + texts(tree.last().tags@)
    }
}

/// The items of a list of the front matter, one on each line.
pub open spec fn list_text(items: Seq<Seq<char>>) -> Seq<char>
    decreases items.len(),
{
    if items.len() == 0 {
        Seq::empty()
    } else {
        list_text(items.drop_last()) + "  - "@ + items.last() + "\n"@
    }
}

/// The tags of the front matter under their key; nothing where there is no
/// tag.
pub open spec fn tags_part(tags: Seq<Seq<char>>) -> Seq<char> {
    if tags.len() == 0 {
        Seq::empty()
    } else {
        "cohost/tags:\n"@ + list_text(tags)
    }
}

/// Writes the items of a list of the front matter.
pub fn render_list(items: &Vec<String>, out: &mut String)
    ensures
        final(out)@ == old(out)@ + list_text(texts(items@)),
{
    let mut i: usize = 0;
    while i < items.len()
        invariant
            i <= items.len(),
            out@ == old(out)@ + list_text(texts(items@).take(i as int)),
        decreases items.len() - i,
    {
        out.append("  - ");
        out.append(items[i].as_str());
        out.append("\n");
        proof {
            let all = texts(items@);
            assert(all.take(i + 1).drop_last() == all.take(i as int));
            assert(all.take(i + 1).last() == items@[i as int]@);
        }
        i += 1;
    }
    proof {
        assert(texts(items@).take(i as int) == texts(items@));
    }
}

/// Offers the askers of a body to the set, in the order of its blocks.
fn gather_askers(blocks: &Vec<Block>, users: &mut IndexSet<String>)
    ensures
        set_items(*final(users)) == absorb(set_items(*old(users)), askers(blocks@)),
{
    let mut i: usize = 0;
    while i < blocks.len()
        invariant
            i <= blocks.len(),
            set_items(*users) == absorb(set_items(*old(users)), askers(blocks@.take(i as int))),
        decreases blocks.len() - i,
    {
        let ghost before = askers(blocks@.take(i as int));
        proof {
            assert(blocks@.take(i + 1).drop_last() == blocks@.take(i as int));
            assert(blocks@.take(i + 1).last() == blocks@[i as int]);
            assert(before + Seq::<Seq<char>>::empty() == before);
        }
        match &blocks[i] {
            Block::Ask { ask } => {
                if ask.anon {
                    insert_item(users, "Anonymous User".to_owned());
                    assert((before + seq![anonymous_user()]).drop_last() == before);
                } else {
                    match &ask.asking_project {
                        Some(project) => {
                            insert_item(users, project.handle.clone());
                            assert((before + seq![project.handle@]).drop_last() == before);
                        },
                        None => {},
                    }
                }
            },
            _ => {},
        }
        i += 1;
    }
    proof {
        assert(blocks@.take(i as int) == blocks@);
    }
}

impl Chost {
    /// Everyone whom the document names, in the order of reading: the
    /// author of this post, then for each post of the share tree its askers
    /// and its author.
    pub open spec fn mentions(&self) -> Seq<Seq<char>> {
        seq![self.posting_project.handle@] + tree_mentions(self.share_tree@)
    }

    /// The users of the front matter: everyone named, each once, in the
    /// order of first mention.
    pub open spec fn header_users(&self) -> Seq<Seq<char>> {
        first_seen(self.mentions())
    }

    /// The tags of this post and then those of each post of the share tree.
    pub open spec fn all_tags(&self) -> Seq<Seq<char>> {
        texts(self.tags@) + tree_tags(self.share_tree@)
    }

    /// The tags of the front matter: each tag once, in the order of first
    /// appearance.
    pub open spec fn header_tags(&self) -> Seq<Seq<char>> {
        first_seen(self.all_tags())
    }

    /// The front matter, with `published` as the reading of the time at
    /// which this post was published.
    pub open spec fn header_text(&self, published: StampView) -> Seq<char> {
        "---\ncohost/date: "@ + published.machine + "\ncohost/users:\n"@ + list_text(self.header_users())
            + tags_part(self.header_tags()) + "cohost/original-post: "@
            + self.single_post_page_url@
            + "\ncohost/archived-post: https://web.archive.org/web/*/"@
            + self.single_post_page_url@ + "\n---\n"@
    }

    /// Walks the share tree once and gathers the users and the tags.
    fn gather(&self) -> (found: (IndexSet<String>, IndexSet<String>))
        ensures
            set_items(found.0) == self.header_users(),
            set_items(found.1) == self.header_tags(),
    {
        let mut users = empty_set();
        insert_item(&mut users, self.posting_project.handle.clone());
        let mut tags = empty_set();
        insert_all(&mut tags, &self.tags);
        let ghost author = seq![self.posting_project.handle@];
        let ghost own = texts(self.tags@);
        proof {
            assert(author.drop_last() == Seq::<Seq<char>>::empty());
            assert(absorb(Seq::empty(), author.drop_last()) == Seq::<Seq<char>>::empty());
            assert(author.last() == self.posting_project.handle@);
            assert(first_seen(author) == set_items(users));
            assert(author + tree_mentions(self.share_tree@.take(0)) == author);
            assert(own + tree_tags(self.share_tree@.take(0)) == own);
        }
        let mut i: usize = 0;
        while i < self.share_tree.len()
            invariant
                i <= self.share_tree.len(),
                author == seq![self.posting_project.handle@],
                own == texts(self.tags@),
                set_items(users) == first_seen(
                    author + tree_mentions(self.share_tree@.take(i as int)),
                ),
                set_items(tags) == first_seen(own + tree_tags(self.share_tree@.take(i as int))),
            decreases self.share_tree.len() - i,
        {
            let shared = &self.share_tree[i];
            let ghost named = author + tree_mentions(self.share_tree@.take(i as int));
            let ghost tagged = own + tree_tags(self.share_tree@.take(i as int));
            gather_askers(&shared.blocks, &mut users);
            insert_item(&mut users, shared.posting_project.handle.clone());
            insert_all(&mut tags, &shared.tags);
            proof {
                let upto = self.share_tree@.take(i + 1);
                assert(upto.drop_last() == self.share_tree@.take(i as int));
                assert(upto.last() == *shared);
                assert(post_mentions(*shared).drop_last() == askers(shared.blocks@));
                lemma_absorb_concat(Seq::empty(), named, post_mentions(*shared));
                assert(named + post_mentions(*shared) == author + tree_mentions(upto));
                lemma_absorb_concat(Seq::empty(), tagged, texts(shared.tags@));
                assert(tagged + texts(shared.tags@) == own + tree_tags(upto));
            }
            i += 1;
        }
        proof {
            assert(self.share_tree@.take(i as int) == self.share_tree@);
        }
        (users, tags)
    }

    /// The users and the tags of the front matter.
    pub fn header_names(&self) -> (names: (Vec<String>, Vec<String>))
        ensures
            texts(names.0@) == self.header_users(),
            texts(names.1@) == self.header_tags(),
    {
        let (users, tags) = self.gather();
        (into_items(users), into_items(tags))
    }

    /// Writes the front matter, with `published` as the reading of the time
    /// at which this post was published.
    pub fn render_header(&self, published: &Stamp, out: &mut String)
        ensures
            final(out)@ == old(out)@ + self.header_text(published@),
    {
        let (users, tags) = self.gather();
        out.append("---\ncohost/date: ");
        out.append(published.machine.as_str());
        out.append("\ncohost/users:\n");
        let users = into_items(users);
        render_list(&users, out);
        if !has_no_items(&tags) {
            out.append("cohost/tags:\n");
            let tags = into_items(tags);
            render_list(&tags, out);
        } else {
            assert(out@ + Seq::<char>::empty() == out@);
        }
        out.append("cohost/original-post: ");
        out.append(self.single_post_page_url.as_str());
        out.append("\ncohost/archived-post: https://web.archive.org/web/*/");
        out.append(self.single_post_page_url.as_str());
        out.append("\n---\n");
    }
}

} // verus!
