use vstd::prelude::*;
use crate::pocket_item::PocketItem;

verus! {

/// The answer of Pocket's list endpoint.
///
/// `list` holds the saved articles, each with its Pocket id. Pocket sends
/// them as a map from id to article, so no id occurs twice
/// (`has_unique_ids`); `insert` keeps it so.
#[derive(Clone, Debug)]
pub struct PocketItemResponse {
    pub status: u8,
    pub complete: u8,
    pub list: Vec<(String, PocketItem)>,
}

impl PocketItemResponse {
    /// No id occurs twice in the list.
    pub open spec fn has_unique_ids(&self) -> bool {
        forall|i: int, j: int|
            0 <= i < j < self.list@.len() ==> (#[trigger] self.list@[i]).0@ != (
            #[trigger] self.list@[j]).0@
    }

    /// Whether some saved article was given the address `link`.
    pub open spec fn saved(&self, link: Seq<char>) -> bool {
        exists|i: int| 0 <= i < self.list@.len() && (#[trigger] self.list@[i]).1.given_url@ == link
    }

    /// An article at any place in the list counts as saved, and only the
    /// addresses of listed articles do.
    pub proof fn law_saved_at_any_position(&self, i: int, link: Seq<char>)
        ensures
            0 <= i < self.list@.len() ==> self.saved(self.list@[i].1.given_url@),
            self.saved(link) ==> exists|k: int|
                0 <= k < self.list@.len() && (#[trigger] self.list@[k]).1.given_url@ == link,
            self.list@.len() == 0 ==> !self.saved(link),
    {
        if 0 <= i < self.list@.len() {
            assert(self.list@[i].1.given_url@ == self.list@[i].1.given_url@);
        }
    }

    /// An answer with the given marks and no articles.
    pub fn new(status: u8, complete: u8) -> (response: PocketItemResponse)
        ensures
            response.status == status,
            response.complete == complete,
            response.list@.len() == 0,
            response.has_unique_ids(),
    {
        PocketItemResponse { status, complete, list: Vec::new() }
    }

    /// Puts `item` in the list under `id`, as a map does: an article already
    /// under `id` is replaced, in its place, and comes back; otherwise the
    /// article goes at the end.
    pub fn insert(&mut self, id: String, item: PocketItem) -> (replaced: Option<PocketItem>)
        ensures
            final(self).status == old(self).status,
            final(self).complete == old(self).complete,
            old(self).has_unique_ids() ==> final(self).has_unique_ids(),
            match replaced {
                Some(previous) => exists|i: int|
                    0 <= i < old(self).list@.len() && (#[trigger] old(self).list@[i]).0@ == id@
                        && previous == old(self).list@[i].1 && final(self).list@ == old(
                        self,
                    ).list@.update(i, (id, item)),
                None => (forall|i: int|
                    0 <= i < old(self).list@.len() ==> (#[trigger] old(self).list@[i]).0@ != id@)
                    && final(self).list@ == old(self).list@.push((id, item)),
            },
    {
        let n = self.list.len();
        for i in 0..n
            invariant
                n == self.list@.len(),
                self.list@ == old(self).list@,
                self.status == old(self).status,
                self.complete == old(self).complete,
                forall|j: int| 0 <= j < i ==> (#[trigger] self.list@[j]).0@ != id@,
        {
            if self.list[i].0 == id {
                let previous = self.list.remove(i);
                self.list.insert(i, (id, item));
                assert(self.list@ =~= old(self).list@.update(i as int, self.list@[i as int]));
                return Some(previous.1);
            }
        }
        self.list.push((id, item));
        None
    }

    /// Whether an article with the address `link` is saved, without giving
    /// up the answer.
    pub(crate) fn links_to(&self, link: &str) -> (found: bool)
        ensures
            found == self.saved(link@),
            forall|i: int|
                0 <= i < self.list@.len() && (#[trigger] self.list@[i]).1.given_url@ == link@
                    ==> found,
            found ==> exists|i: int|
                0 <= i < self.list@.len() && (#[trigger] self.list@[i]).1.given_url@ == link@,
    {
        let wanted = link.to_string();
        let n = self.list.len();
        for i in 0..n
            invariant
                n == self.list@.len(),
                wanted@ == link@,
                forall|j: int| 0 <= j < i ==> (#[trigger] self.list@[j]).1.given_url@ != link@,
        {
            if self.list[i].1.given_url == wanted {
                assert(self.list@[i as int].1.given_url@ == link@);
                return true;
            }
        }
        false
    }

    /// Whether an article with the address `link` is already saved.
    pub fn has_link(self, link: &str) -> (found: bool)
        ensures
            found == self.saved(link@),
            forall|i: int|
                0 <= i < self.list@.len() && (#[trigger] self.list@[i]).1.given_url@ == link@
                    ==> found,
            found ==> exists|i: int|
                0 <= i < self.list@.len() && (#[trigger] self.list@[i]).1.given_url@ == link@,
    {
        self.links_to(link)
    }

    /// Whether the answer lists every saved article (Pocket marks a full
    /// answer with `complete` 1).
    pub fn is_complete(&self) -> (complete: bool)
        ensures
            complete == (self.complete == 1),
    {
        self.complete == 1
    }
}

} // verus!
