use vstd::prelude::*;
use crate::item::{Item, ItemView};
use crate::text::{contains_string, opt_strings_view, strings_view};

verus! {

/// Values that exclude an item of a source when the item carries one of them.
#[derive(Clone, Debug)]
pub struct ExcludeRules {
    pub category: Option<Vec<String>>,
    pub author: Option<Vec<String>>,
}

/// An RSS feed to follow: where it is, what it is called, and which of its
/// items to leave out.
#[derive(Clone, Debug)]
pub struct Source {
    pub src: String,
    pub exclude: Option<ExcludeRules>,
    pub name: String,
}

/// Whether some value of `values` is among `excluded`; never when either is absent.
pub open spec fn any_excluded(
    values: Option<Seq<Seq<char>>>,
    excluded: Option<Seq<Seq<char>>>,
) -> bool {
    &&& values is Some
    &&& excluded is Some
    &&& exists|i: int|
        0 <= i < values->0.len() && excluded->0.contains(#[trigger] values->0[i])
}

/// Whether both lists are present and some value occurs, exactly, in both.
pub open spec fn shared_value(values: Option<Seq<Seq<char>>>, excluded: Option<Seq<Seq<char>>>) -> bool {
    values is Some && excluded is Some && exists|v: Seq<char>|
        #[trigger] values->0.contains(v) && excluded->0.contains(v)
}

/// A value excludes an item exactly when the same value, character for
/// character, is in both lists: a value that only starts, ends or contains
/// an excluded one does not.
pub proof fn law_exclusion_is_an_exact_match(
    values: Option<Seq<Seq<char>>>,
    excluded: Option<Seq<Seq<char>>>,
)
    ensures
        any_excluded(values, excluded) <==> shared_value(values, excluded),
{
    if any_excluded(values, excluded) {
        let i = choose|i: int|
            0 <= i < values->0.len() && excluded->0.contains(#[trigger] values->0[i]);
        assert(values->0.contains(values->0[i]));
    }
    if shared_value(values, excluded) {
        let v = choose|v: Seq<char>| #[trigger] values->0.contains(v) && excluded->0.contains(v);
        let i = choose|i: int| 0 <= i < values->0.len() && values->0[i] == v;
        assert(excluded->0.contains(values->0[i]));
    }
}

/// An item none of whose authors and none of whose categories is, exactly,
/// an excluded one is kept.
pub proof fn law_kept_without_exact_match(source: Source, item: ItemView)
    requires
        item.author is Some && source.excluded_authors() is Some ==> forall|i: int|
            0 <= i < item.author->0.len() ==> !source.excluded_authors()->0.contains(
                #[trigger] item.author->0[i],
            ),
        item.category is Some && source.excluded_categories() is Some ==> forall|i: int|
            0 <= i < item.category->0.len() ==> !source.excluded_categories()->0.contains(
                #[trigger] item.category->0[i],
            ),
    ensures
        source.includes(item),
{
}

impl Source {
    /// The authors whose items this source leaves out, if it names any.
    pub open spec fn excluded_authors(&self) -> Option<Seq<Seq<char>>> {
        match self.exclude {
            Some(rules) => opt_strings_view(rules.author),
            None => None,
        }
    }

    /// The categories whose items this source leaves out, if it names any.
    pub open spec fn excluded_categories(&self) -> Option<Seq<Seq<char>>> {
        match self.exclude {
            Some(rules) => opt_strings_view(rules.category),
            None => None,
        }
    }

    /// An item is kept unless one of its authors is an excluded author, or one
    /// of its categories an excluded category.
    pub open spec fn includes(&self, item: ItemView) -> bool {
        &&& !any_excluded(item.author, self.excluded_authors())
        &&& !any_excluded(item.category, self.excluded_categories())
    }

    /// Whether the source keeps `item`, by its exclusion rules.
    pub fn item_included(&self, item: &Item) -> (included: bool)
        ensures
            included == self.includes(item@),
            included == !(shared_value(item@.author, self.excluded_authors()) || shared_value(
                item@.category,
                self.excluded_categories(),
            )),
    {
        proof {
            law_exclusion_is_an_exact_match(item@.author, self.excluded_authors());
            law_exclusion_is_an_exact_match(item@.category, self.excluded_categories());
        }
        let mut included = true;
        if let Some(author) = &item.author {
            if let Some(exclude) = &self.exclude {
                if let Some(excl_authors) = &exclude.author {
                    if any_in(author, excl_authors) {
                        included = false;
                    }
                }
            }
        }
        if let Some(category) = &item.category {
            if let Some(exclude) = &self.exclude {
                if let Some(excl_categories) = &exclude.category {
                    if any_in(category, excl_categories) {
                        included = false;
                    }
                }
            }
        }
        included
    }
}

/// A source without exclusion rules keeps every item.
pub proof fn law_no_rules_keep_everything(source: Source, item: ItemView)
    requires
        source.exclude is None,
    ensures
        source.includes(item),
{
}

/// An item with an excluded author is left out, whatever its categories.
pub proof fn law_excluded_author_leaves_out(source: Source, item: ItemView, author: Seq<char>)
    requires
        item.author is Some && item.author->0.contains(author),
        source.excluded_authors() is Some && source.excluded_authors()->0.contains(author),
    ensures
        !source.includes(item),
{
    let i = choose|i: int| 0 <= i < item.author->0.len() && item.author->0[i] == author;
    assert(item.author->0[i] == author);
}

/// An item with an excluded category is left out, whatever its authors.
pub proof fn law_excluded_category_leaves_out(source: Source, item: ItemView, category: Seq<char>)
    requires
        item.category is Some && item.category->0.contains(category),
        source.excluded_categories() is Some && source.excluded_categories()->0.contains(category),
    ensures
        !source.includes(item),
{
    let i = choose|i: int| 0 <= i < item.category->0.len() && item.category->0[i] == category;
    assert(item.category->0[i] == category);
}

/// Whether some string of `values` is among `excluded`.
fn any_in(values: &Vec<String>, excluded: &Vec<String>) -> (found: bool)
    ensures
        found == any_excluded(Some(strings_view(values@)), Some(strings_view(excluded@))),
{
    let n = values.len();
    for i in 0..n
        invariant
            n == values@.len(),
            forall|j: int|
                0 <= j < i ==> !strings_view(excluded@).contains(#[trigger] strings_view(values@)[j]),
    {
        if contains_string(excluded, &values[i]) {
            let ghost vs = Some(strings_view(values@))->0;
            assert(strings_view(excluded@).contains(vs[i as int]));
            return true;
        }
    }
    false
}

} // verus!
