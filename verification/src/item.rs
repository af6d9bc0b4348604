use vstd::prelude::*;
use crate::datetime::{
    naive_display, naive_timestamp, parse_from_rfc2822, rfc2822_parse, DateParseError,
    NaiveDateTimeParts, ParsedDateTime,
};
use crate::text::{copy_opt_strings, opt_string_view, opt_strings_view};

verus! {

/// One entry of an RSS channel.
///
/// `timestamp` and `utc` are filled in from `pubDate` by `add_timestamps`.
#[derive(Clone, Debug, PartialEq)]
#[allow(non_snake_case)]
pub struct Item {
    pub author: Option<Vec<String>>,
    pub category: Option<Vec<String>>,
    pub description: String,
    pub link: String,
    pub pubDate: String,
    pub timestamp: Option<i64>,
    pub utc: Option<String>,
    pub title: String,
}

/// The contents of an `Item`.
pub struct ItemView {
    pub author: Option<Seq<Seq<char>>>,
    pub category: Option<Seq<Seq<char>>>,
    pub description: Seq<char>,
    pub link: Seq<char>,
    pub pub_date: Seq<char>,
    pub timestamp: Option<i64>,
    pub utc: Option<Seq<char>>,
    pub title: Seq<char>,
}

impl View for Item {
    type V = ItemView;

    open spec fn view(&self) -> ItemView {
        ItemView {
            author: opt_strings_view(self.author),
            category: opt_strings_view(self.category),
            description: self.description@,
            link: self.link@,
            pub_date: self.pubDate@,
            timestamp: self.timestamp,
            utc: opt_string_view(self.utc),
            title: self.title@,
        }
    }
}

impl ItemView {
    /// Whether the publication date parses as an RFC 2822 date and time.
    pub open spec fn has_valid_pub_date(self) -> bool {
        rfc2822_parse(self.pub_date) is Ok
    }

    /// The item with its timestamps filled in from its publication date.
    pub open spec fn timestamped(self) -> ItemView {
        self.with_timestamps(rfc2822_parse(self.pub_date)->Ok_0.utc)
    }

    /// The item with its timestamp and UTC text taken from the moment `utc`.
    pub open spec fn with_timestamps(self, utc: NaiveDateTimeParts) -> ItemView {
        ItemView {
            timestamp: Some(utc.unix_seconds() as i64),
            utc: Some(utc.display_text()),
            ..self
        }
    }
}

/// The timestamp is the count of seconds of the moment in UTC: two
/// publication dates that name the same moment, whatever their offsets,
/// give the same timestamp and the same UTC text, and the timestamp is the
/// UTC moment's seconds since the epoch.
pub proof fn law_timestamp_ignores_offset(a: ItemView, b: ItemView)
    requires
        a.has_valid_pub_date(),
        b.has_valid_pub_date(),
        rfc2822_parse(a.pub_date)->Ok_0.utc == rfc2822_parse(b.pub_date)->Ok_0.utc,
    ensures
        a.timestamped().timestamp == b.timestamped().timestamp,
        a.timestamped().utc == b.timestamped().utc,
        a.timestamped().timestamp == Some(
            rfc2822_parse(a.pub_date)->Ok_0.utc.unix_seconds() as i64,
        ),
{
}

/// One more second of the UTC moment is one more second of timestamp, and
/// one more day is 86400 more; the epoch itself is second 0.
pub proof fn law_unix_seconds_counts_seconds(d: NaiveDateTimeParts)
    ensures
        d.second < u32::MAX ==> (NaiveDateTimeParts { second: (d.second + 1) as u32, ..d }).unix_seconds()
            == d.unix_seconds() + 1,
        d.day < u32::MAX ==> (NaiveDateTimeParts { day: (d.day + 1) as u32, ..d }).unix_seconds()
            == d.unix_seconds() + 86400,
        (NaiveDateTimeParts {
            year: 1970,
            month: 1,
            day: 1,
            hour: 0,
            minute: 0,
            second: 0,
            nanosecond: 0,
        }).unix_seconds() == 0,
{
}

impl Item {
    /// Whether the publication date parses as an RFC 2822 date and time.
    pub open spec fn has_valid_pub_date(&self) -> bool {
        self@.has_valid_pub_date()
    }

    /// The item with its timestamps filled in from its publication date.
    pub open spec fn timestamped(&self) -> ItemView {
        self@.timestamped()
    }

    /// Sets `timestamp` to the seconds since the epoch and `utc` to the text
    /// `YYYY-MM-DD HH:MM:SS` of the moment, in UTC, that `pubDate` gives in
    /// RFC 2822 form. Nothing else changes.
    pub fn add_timestamps(&mut self)
        requires
            old(self).has_valid_pub_date(),
        ensures
            final(self)@ == old(self).timestamped(),
            final(self)@ == (ItemView {
                timestamp: Some(rfc2822_parse(old(self).pubDate@)->Ok_0.utc.unix_seconds() as i64),
                utc: Some(rfc2822_parse(old(self).pubDate@)->Ok_0.utc.display_text()),
                ..old(self)@
            }),
    {
        match parse_from_rfc2822(self.pubDate.as_str()) {
            Ok(parsed) => {
                let seconds = naive_timestamp(&parsed.utc);
                let text = naive_display(&parsed.utc);
                self.timestamp = Some(seconds);
                self.utc = Some(text);
            },
            Err(_) => {},
        }
    }

    /// Like `add_timestamps`, for any publication date: where it does not
    /// parse, the item stays as it is and the reason comes back.
    pub fn try_add_timestamps(&mut self) -> (outcome: Result<(), DateParseError>)
        ensures
            outcome is Ok <==> old(self).has_valid_pub_date(),
            outcome is Ok ==> final(self)@ == old(self).timestamped(),
            outcome is Ok ==> final(self)@ == (ItemView {
                timestamp: Some(rfc2822_parse(old(self).pubDate@)->Ok_0.utc.unix_seconds() as i64),
                utc: Some(rfc2822_parse(old(self).pubDate@)->Ok_0.utc.display_text()),
                ..old(self)@
            }),
            outcome matches Err(e) ==> rfc2822_parse(old(self).pubDate@) == Err::<ParsedDateTime, DateParseError>(e) && final(self)@ == old(self)@,
    {
        match parse_from_rfc2822(self.pubDate.as_str()) {
            Ok(_) => {
                self.add_timestamps();
                Ok(())
            },
            Err(e) => Err(e),
        }
    }

    /// Adding the timestamps a second time changes nothing more.
    pub proof fn law_timestamps_settle(self, again: Item)
        requires
            self.has_valid_pub_date(),
            again@ == self.timestamped(),
        ensures
            again.has_valid_pub_date(),
            again.timestamped() == self.timestamped(),
    {
        assert(again.pubDate@ == self.pubDate@);
    }

    /// A copy of the item.
    pub(crate) fn duplicate(&self) -> (copy: Item)
        ensures
            copy@ == self@,
    {
        Item {
            author: copy_opt_strings(&self.author),
            category: copy_opt_strings(&self.category),
            description: self.description.clone(),
            link: self.link.clone(),
            pubDate: self.pubDate.clone(),
            timestamp: self.timestamp,
            utc: match &self.utc {
                Some(u) => Some(u.clone()),
                None => None,
            },
            title: self.title.clone(),
        }
    }
}

} // verus!
