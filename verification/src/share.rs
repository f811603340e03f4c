//! Which post a chost shares, and where that post stands in its share tree.

use crate::model::Chost;
use vstd::prelude::*;

verus! {

/// Entry `i` of `tree` is the first one whose identifier is `id`.
pub open spec fn first_with_id(tree: Seq<Chost>, id: u64, i: int) -> bool {
    &&& 0 <= i < tree.len()
    &&& tree[i].post_id == id
    &&& forall|j: int| 0 <= j < i ==> (#[trigger] tree[j]).post_id != id
}

impl Chost {
    /// The identifier of the post that this one shares: the transparent one
    /// where both are given.
    pub open spec fn shared_id(&self) -> Option<u64> {
        if self.transparent_share_of_post_id is Some {
            self.transparent_share_of_post_id
        } else {
            self.share_of_post_id
        }
    }

    /// The place in the share tree of the post that this one shares. The
    /// entry is found by its identifier alone: one that is itself a
    /// transparent share still counts. `None` where this post shares nothing
    /// or the tree holds no such entry.
    pub open spec fn shared_index(&self) -> Option<int> {
        match self.shared_id() {
            None => None,
            Some(id) => {
                if exists|i: int| first_with_id(self.share_tree@, id, i) {
                    Some(choose|i: int| first_with_id(self.share_tree@, id, i))
                } else {
                    None
                }
            },
        }
    }

    /// Whether this post shares another one, transparently or not.
    pub fn is_share(&self) -> (shares: bool)
        ensures
            shares == (self.shared_id() is Some),
            shares == (self.transparent_share_of_post_id is Some
                || self.share_of_post_id is Some),
    {
        self.transparent_share_of_post_id.is_some() || self.share_of_post_id.is_some()
    }

    /// The post that this one shares, looked up in the share tree.
    pub fn shared_chost(&self) -> (found: Option<&Chost>)
        ensures
            (found is Some) == (self.shared_index() is Some),
            self.shared_index() matches Some(i) ==> found == Some(&self.share_tree@[i]),
    {
        if !self.is_share() {
            return None;
        }
        let id: u64 = match self.transparent_share_of_post_id {
            Some(id) => id,
            None => match self.share_of_post_id {
                Some(id) => id,
                None => { return None; },
            },
        };
        let mut i: usize = 0;
        while i < self.share_tree.len()
            invariant
                i <= self.share_tree.len(),
                self.shared_id() == Some(id),
                forall|j: int| 0 <= j < i ==> (#[trigger] self.share_tree@[j]).post_id != id,
            decreases self.share_tree.len() - i,
        {
            if self.share_tree[i].post_id == id {
                proof {
                    assert(first_with_id(self.share_tree@, id, i as int));
                    assert(self.shared_index() is Some);
                    let first = self.shared_index()->0;
                    assert(first_with_id(self.share_tree@, id, first));
                    assert(first == i);
                }
                return Some(&self.share_tree[i]);
            }
            i += 1;
        }
        None
    }
}

} // verus!
