use vstd::prelude::*;
use crate::datetime::{rfc2822_parse, DateParseError, ParsedDateTime};
use crate::feed::{items_view, Feed};
use crate::item::{Item, ItemView};
use crate::pocket_item_response::PocketItemResponse;
use crate::source::Source;

verus! {

/// What to do with the items of one feed: each kept item, with its
/// timestamps, and whether to save it to Pocket, in feed order; and, when a
/// kept item's publication date does not parse, why (the items from that one
/// on are not planned).
#[derive(Clone, Debug)]
pub struct SourcePlan {
    pub steps: Vec<(Item, bool)>,
    pub failure: Option<DateParseError>,
}

/// The items of the feed that the source keeps, in feed order.
pub open spec fn kept_items(feed: Feed, source: Source) -> Seq<ItemView> {
    items_view(feed.channel.item@).filter(|item: ItemView| source.includes(item))
}

/// Plans a feed: the items that `source` keeps get their timestamps, and an
/// item is to be saved to Pocket exactly when no saved article has its link.
pub fn plan_source(feed: &Feed, source: &Source, saved: &PocketItemResponse) -> (plan: SourcePlan)
    ensures
        plan.steps@.len() <= kept_items(*feed, *source).len(),
        forall|i: int|
            0 <= i < plan.steps@.len() ==> {
                let kept = kept_items(*feed, *source)[i];
                &&& kept.has_valid_pub_date()
                &&& (#[trigger] plan.steps@[i]).0@ == kept.timestamped()
                &&& plan.steps@[i].1 == !saved.saved(kept.link)
            },
        plan.failure is None <==> plan.steps@.len() == kept_items(*feed, *source).len(),
        plan.failure matches Some(e) ==> rfc2822_parse(
            kept_items(*feed, *source)[plan.steps@.len() as int].pub_date,
        ) == Err::<ParsedDateTime, DateParseError>(e),
{
    let kept = feed.filtered_items(source);
    let ghost kept_view = kept_items(*feed, *source);
    let mut steps: Vec<(Item, bool)> = Vec::new();
    let n = kept.len();
    for i in 0..n
        invariant
            n == kept@.len(),
            items_view(kept@) == kept_view,
            kept_view == kept_items(*feed, *source),
            steps@.len() == i,
            forall|j: int|
                0 <= j < i ==> {
                    &&& kept_view[j].has_valid_pub_date()
                    &&& (#[trigger] steps@[j]).0@ == kept_view[j].timestamped()
                    &&& steps@[j].1 == !saved.saved(kept_view[j].link)
                },
    {
        let mut item = kept[i].duplicate();
        assert(item@ == kept_view[i as int]);
        match item.try_add_timestamps() {
            Ok(()) => {
                let ghost before = steps@;
                let ghost planned = item@;
                assert(planned == kept_view[i as int].timestamped());
                assert(planned.link == kept_view[i as int].link);
                let publish = !saved.links_to(item.link.as_str());
                steps.push((item, publish));
                assert forall|j: int| 0 <= j < i + 1 implies {
                    &&& kept_view[j].has_valid_pub_date()
                    &&& (#[trigger] steps@[j]).0@ == kept_view[j].timestamped()
                    &&& steps@[j].1 == !saved.saved(kept_view[j].link)
                } by {
                    if j < i {
                        assert(steps@[j] == before[j]);
                    }
                }
            },
            Err(e) => {
                return SourcePlan { steps, failure: Some(e) };
            },
        }
    }
    SourcePlan { steps, failure: None }
}

} // verus!
