//! The day-state store: what one response of the feed says about each day.

use crate::json::{
    json_document, json_member, json_model, member, members, parse_document, string_contents, Json,
};
use crate::tempo::{tempo_day_of, TempoDay, TempoDayState, TempoDayView};
use crate::text::same_text;
use vstd::prelude::*;

verus! {

/// Why a fetch gave no snapshot.
#[derive(Debug, PartialEq, Eq, Clone, Copy, Structural)]
pub enum FetchError {
    /// The feed could not be reached in time.
    Unavailable,
    /// The feed answered, but not in the shape that is expected of it.
    MalformedResponse,
}

/// What one entry of the feed comes to.
pub enum FeedEntry {
    /// Its label is no colour: the entry is left out.
    Dropped,
    /// It gives a day its colour.
    Kept(TempoDayView),
    /// Its label is no string, or its key is no day although its label is a
    /// colour: the response is not what is expected.
    Malformed,
}

/// What the entry `key`: `label` comes to. `label` is `None` where the
/// entry's value is not a string.
pub open spec fn feed_entry(key: Seq<char>, label: Option<Seq<char>>) -> FeedEntry {
    match label {
        None => FeedEntry::Malformed,
        Some(l) => match TempoDayState::spec_from(l) {
            None => FeedEntry::Dropped,
            Some(state) => match tempo_day_of(key, state) {
                Some(day) => FeedEntry::Kept(day),
                None => FeedEntry::Malformed,
            },
        },
    }
}

/// The snapshot that the entries give, taken in order: a later entry for a
/// day replaces an earlier one, an entry whose label is no colour changes
/// nothing, and one malformed entry spoils the whole response.
pub open spec fn snapshot_of(entries: Seq<(Seq<char>, Option<Seq<char>>)>) -> Result<
    Map<Seq<char>, TempoDayView>,
    FetchError,
>
    decreases entries.len(),
{
    if entries.len() == 0 {
        Ok(Map::empty())
    } else {
        match snapshot_of(entries.drop_last()) {
            Err(e) => Err(e),
            Ok(days) => match feed_entry(entries.last().0, entries.last().1) {
                FeedEntry::Malformed => Err(FetchError::MalformedResponse),
                FeedEntry::Dropped => Ok(days),
                FeedEntry::Kept(day) => Ok(days.insert(entries.last().0, day)),
            },
        }
    }
}

/// The label of a member of the feed's `values` object: its contents where
/// it is a string.
pub open spec fn label_of(value: Json) -> Option<Seq<char>> {
    match value {
        Json::Text(label) => Some(label),
        _ => None,
    }
}

/// The entries that the members of the feed's `values` object stand for.
pub open spec fn labels_of(members: Seq<(Seq<char>, Json)>) -> Seq<
    (Seq<char>, Option<Seq<char>>),
> {
    Seq::new(members.len(), |i: int| (members[i].0, label_of(members[i].1)))
}

/// The snapshot that the response `body` gives: the entries of the object
/// under `values` of the JSON document in it.
pub open spec fn response_snapshot(body: Seq<u8>) -> Result<
    Map<Seq<char>, TempoDayView>,
    FetchError,
> {
    match json_document(body) {
        Some(doc) => match json_member(doc, "values"@) {
            Some(Json::Object(members)) => snapshot_of(labels_of(members)),
            _ => Err(FetchError::MalformedResponse),
        },
        None => Err(FetchError::MalformedResponse),
    }
}

/// What the entries of a `Vec` hold.
pub open spec fn entries_view(entries: Seq<(String, Option<String>)>) -> Seq<
    (Seq<char>, Option<Seq<char>>),
> {
    Seq::new(
        entries.len(),
        |i: int|
            (
                entries[i].0@,
                match entries[i].1 {
                    Some(label) => Some(label@),
                    None => None,
                },
            ),
    )
}

/// The days of a list as a map from each day's text: of two days with the
/// same text the later one counts.
pub open spec fn days_map(days: Seq<TempoDayView>) -> Map<Seq<char>, TempoDayView>
    decreases days.len(),
{
    if days.len() == 0 {
        Map::empty()
    } else {
        days_map(days.drop_last()).insert(days.last().day, days.last())
    }
}

/// No two days of the list have the same text.
pub open spec fn distinct_days(days: Seq<TempoDayView>) -> bool {
    forall|i: int, j: int| 0 <= i < j < days.len() ==> days[i].day != days[j].day
}

/// What the days of a list hold.
pub open spec fn views_of(days: Seq<TempoDay>) -> Seq<TempoDayView> {
    Seq::new(days.len(), |i: int| days[i]@)
}

/// How the feed is asked.
#[derive(Debug)]
pub struct FeedRequest {
    /// The address to `GET`.
    pub url: String,
    /// The `User-Agent` to send.
    pub user_agent: String,
    /// How long to wait for the answer, in seconds.
    pub timeout_secs: u64,
}

/// What a `FeedRequest` holds.
pub struct FeedRequestView {
    pub url: Seq<char>,
    pub user_agent: Seq<char>,
    pub timeout_secs: u64,
}

impl View for FeedRequest {
    type V = FeedRequestView;

    open spec fn view(&self) -> FeedRequestView {
        FeedRequestView {
            url: self.url@,
            user_agent: self.user_agent@,
            timeout_secs: self.timeout_secs,
        }
    }
}

/// How the feed is asked: one `GET` of the season's address, with five
/// seconds to answer.
pub open spec fn feed_request() -> FeedRequestView {
    FeedRequestView {
        url: "https://www.services-rte.com/cms/open_data/v1/tempo?season=2024-2025"@,
        user_agent: "curl/7.54.1"@,
        timeout_secs: 5,
    }
}

/// The snapshot of one fetch: the colour of each day that the feed knows.
#[derive(Debug)]
pub struct EdfTempoStore {
    entries: Vec<TempoDay>,
}

impl View for EdfTempoStore {
    type V = Map<Seq<char>, TempoDayView>;

    closed spec fn view(&self) -> Map<Seq<char>, TempoDayView> {
        days_map(self.days())
    }
}

/// The view of the result of a fetch.
pub open spec fn fetched_view(r: Result<EdfTempoStore, FetchError>) -> Result<
    Map<Seq<char>, TempoDayView>,
    FetchError,
> {
    match r {
        Ok(store) => Ok(store@),
        Err(e) => Err(e),
    }
}

impl EdfTempoStore {
    /// The days held, in the order of the list that holds them.
    pub closed spec fn days(&self) -> Seq<TempoDayView> {
        views_of(self.entries@)
    }

    #[verifier::type_invariant]
    spec fn type_wf(self) -> bool {
        distinct_days(self.days())
    }

    /// How the feed is asked: one `GET` of the season's address, with five
    /// seconds to answer.
    pub fn feed_request() -> (r: FeedRequest)
        ensures
            r@ == feed_request(),
    {
        FeedRequest {
            url: "https://www.services-rte.com/cms/open_data/v1/tempo?season=2024-2025".to_owned(),
            user_agent: "curl/7.54.1".to_owned(),
            timeout_secs: 5,
        }
    }

    /// A snapshot that knows no day.
    fn empty() -> (r: Self)
        ensures
            r@ == Map::<Seq<char>, TempoDayView>::empty(),
    {
        EdfTempoStore { entries: Vec::new() }
    }

    /// Where the day written `day` stands in the list, if it does.
    fn position(&self, day: &str) -> (r: Option<usize>)
        ensures
            match r {
                Some(i) => i < self.days().len() && self.days()[i as int].day == day@,
                None => forall|i: int| 0 <= i < self.days().len() ==> self.days()[i].day != day@,
            },
    {
        let mut i: usize = 0;
        while i < self.entries.len()
            invariant
                i <= self.entries.len(),
                self.days().len() == self.entries.len(),
                forall|j: int| 0 <= j < i ==> self.days()[j].day != day@,
            decreases self.entries.len() - i,
        {
            if same_text(self.entries[i].day(), day) {
                return Some(i);
            }
            i += 1;
        }
        None
    }

    /// Gives `day` its place in the snapshot, in place of what the snapshot
    /// held for that day before.
    fn insert(self, day: TempoDay) -> (r: Self)
        ensures
            r@ == self@.insert(day@.day, day@),
    {
        proof {
            use_type_invariant(&self);
        }
        let ghost before = self.days();
        let found = self.position(day.day());
        let mut entries = self.entries;
        match found {
            Some(i) => {
                entries.set(i, day);
                proof {
                    assert(views_of(entries@) =~= before.update(i as int, day@));
                    lemma_days_map_update(before, i as int, day@);
                }
                EdfTempoStore { entries }
            },
            None => {
                entries.push(day);
                proof {
                    assert(views_of(entries@) =~= before.push(day@));
                    assert(before.push(day@).drop_last() =~= before);
                }
                EdfTempoStore { entries }
            },
        }
    }

    /// What the snapshot holds for the day written `day`: a day of that
    /// text, or nothing.
    pub fn retrieve_tempo_day_state(&self, day: &str) -> (r: Option<TempoDay>)
        ensures
            match r {
                Some(found) => self@.contains_key(day@) && found@ == self@[day@] && found@.day
                    == day@,
                None => !self@.contains_key(day@),
            },
    {
        proof {
            use_type_invariant(self);
            lemma_days_map_lookup(self.days(), day@);
        }
        match self.position(day) {
            Some(i) => Some(self.entries[i].clone()),
            None => None,
        }
    }

    /// The snapshot that the entries of the feed give. Each entry is a key
    /// and the label under it, `None` where the value under the key is not a
    /// string.
    pub fn edf_values_to_tempo_types(values: &Vec<(String, Option<String>)>) -> (r: Result<
        Self,
        FetchError,
    >)
        ensures
            fetched_view(r) == snapshot_of(entries_view(values@)),
    {
        let ghost all = entries_view(values@);
        let mut store = Self::empty();
        let mut i: usize = 0;
        while i < values.len()
            invariant
                i <= values.len(),
                all == entries_view(values@),
                snapshot_of(all.take(i as int)) == Ok::<_, FetchError>(store@),
            decreases values.len() - i,
        {
            proof {
                assert(all.take(i + 1).drop_last() =~= all.take(i as int));
                assert(all.take(i + 1).last() == all[i as int]);
            }
            let entry = &values[i];
            let kept = match &entry.1 {
                None => None,
                Some(label) => match TempoDayState::from(label.as_str()) {
                    None => Some(None),
                    Some(state) => match TempoDay::try_new(entry.0.as_str(), state) {
                        Some(day) => Some(Some(day)),
                        None => None,
                    },
                },
            };
            match kept {
                None => {
                    proof {
                        lemma_snapshot_spoiled(all, i + 1);
                    }
                    return Err(FetchError::MalformedResponse);
                },
                Some(None) => {},
                Some(Some(day)) => {
                    store = store.insert(day);
                },
            }
            i += 1;
        }
        proof {
            assert(all.take(i as int) =~= all);
        }
        Ok(store)
    }

    /// Reads the body of the feed's answer: a JSON document with an object
    /// under `values`, whose keys are days and whose values are labels.
    pub fn retrieve_info(body: &[u8]) -> (r: Result<Self, FetchError>)
        ensures
            fetched_view(r) == response_snapshot(body@),
    {
        let doc = match parse_document(body) {
            Some(doc) => doc,
            None => {
                return Err(FetchError::MalformedResponse);
            },
        };
        let values = match member(&doc, "values") {
            Some(values) => values,
            None => {
                return Err(FetchError::MalformedResponse);
            },
        };
        let found = match members(values) {
            Some(found) => found,
            None => {
                return Err(FetchError::MalformedResponse);
            },
        };
        let ghost model = json_model(*values)->Object_0;
        let mut entries: Vec<(String, Option<String>)> = Vec::new();
        let mut i: usize = 0;
        while i < found.len()
            invariant
                i <= found.len(),
                found@.len() == model.len(),
                forall|j: int|
                    0 <= j < model.len() ==> (#[trigger] model[j]).0 == found@[j].0@ && model[j].1
                        == json_model(*found@[j].1),
                entries@.len() == i,
                entries_view(entries@) == labels_of(model).take(i as int),
            decreases found.len() - i,
        {
            let key = found[i].0.clone();
            let label = match string_contents(found[i].1) {
                Some(contents) => Some(contents.to_owned()),
                None => None,
            };
            proof {
                assert(model[i as int].0 == key@);
            }
            entries.push((key, label));
            proof {
                assert(entries_view(entries@) =~= labels_of(model).take(i + 1));
            }
            i += 1;
        }
        proof {
            assert(labels_of(model).take(i as int) =~= labels_of(model));
        }
        Self::edf_values_to_tempo_types(&entries)
    }
}

/// A map made of days without a repeat holds each of them under its text,
/// and nothing under a text that none of them has.
pub proof fn lemma_days_map_lookup(days: Seq<TempoDayView>, key: Seq<char>)
    requires
        distinct_days(days),
    ensures
        forall|i: int|
            0 <= i < days.len() && (#[trigger] days[i]).day == key ==> days_map(days).contains_key(
                key,
            ) && days_map(days)[key] == days[i],
        (forall|i: int| 0 <= i < days.len() ==> (#[trigger] days[i]).day != key) ==> !days_map(
            days,
        ).contains_key(key),
    decreases days.len(),
{
    if days.len() > 0 {
        let rest = days.drop_last();
        assert(distinct_days(rest)) by {
            assert forall|i: int, j: int| 0 <= i < j < rest.len() implies rest[i].day
                != rest[j].day by {
                assert(rest[i] == days[i] && rest[j] == days[j]);
            }
        }
        lemma_days_map_lookup(rest, key);
        assert forall|i: int| 0 <= i < days.len() && (#[trigger] days[i]).day == key implies days_map(
            days,
        ).contains_key(key) && days_map(days)[key] == days[i] by {
            if i < days.len() - 1 {
                assert(rest[i] == days[i]);
                assert(days[i].day != days[days.len() - 1].day);
            }
        }
        if forall|i: int| 0 <= i < days.len() ==> (#[trigger] days[i]).day != key {
            assert forall|i: int| 0 <= i < rest.len() implies (#[trigger] rest[i]).day != key by {
                assert(rest[i] == days[i]);
            }
            assert(days.last().day != key);
        }
    }
}

/// Replacing a day of a list without a repeat by one of the same text is
/// giving the map that day.
proof fn lemma_days_map_update(days: Seq<TempoDayView>, i: int, day: TempoDayView)
    requires
        distinct_days(days),
        0 <= i < days.len(),
        days[i].day == day.day,
    ensures
        distinct_days(days.update(i, day)),
        days_map(days.update(i, day)) == days_map(days).insert(day.day, day),
    decreases days.len(),
{
    let updated = days.update(i, day);
    assert(distinct_days(updated)) by {
        assert forall|a: int, b: int| 0 <= a < b < updated.len() implies updated[a].day
            != updated[b].day by {
            assert(updated[a].day == days[a].day);
            assert(updated[b].day == days[b].day);
        }
    }
    let rest = days.drop_last();
    if i == days.len() - 1 {
        assert(updated.drop_last() =~= rest);
        assert(days_map(updated) =~= days_map(days).insert(day.day, day));
    } else {
        assert(distinct_days(rest)) by {
            assert forall|a: int, b: int| 0 <= a < b < rest.len() implies rest[a].day
                != rest[b].day by {
                assert(rest[a] == days[a] && rest[b] == days[b]);
            }
        }
        lemma_days_map_update(rest, i, day);
        assert(updated.drop_last() =~= rest.update(i, day));
        assert(updated.last() == days.last());
        assert(days.last().day != day.day);
        assert(days_map(updated) =~= days_map(days).insert(day.day, day));
    }
}

/// Once the first `n` entries give no snapshot, the whole response gives
/// none.
proof fn lemma_snapshot_spoiled(entries: Seq<(Seq<char>, Option<Seq<char>>)>, n: int)
    requires
        0 <= n <= entries.len(),
        snapshot_of(entries.take(n)) is Err,
    ensures
        snapshot_of(entries) == Err::<Map<Seq<char>, TempoDayView>, _>(
            FetchError::MalformedResponse,
        ),
    decreases entries.len() - n,
{
    lemma_snapshot_error(entries.take(n));
    if n == entries.len() {
        assert(entries.take(n) =~= entries);
    } else {
        assert(entries.take(n + 1).drop_last() =~= entries.take(n));
        lemma_snapshot_spoiled(entries, n + 1);
    }
}

/// The only error of a snapshot is a malformed response.
proof fn lemma_snapshot_error(entries: Seq<(Seq<char>, Option<Seq<char>>)>)
    ensures
        snapshot_of(entries) is Err ==> snapshot_of(entries) == Err::<
            Map<Seq<char>, TempoDayView>,
            _,
        >(FetchError::MalformedResponse),
    decreases entries.len(),
{
    if entries.len() > 0 {
        lemma_snapshot_error(entries.drop_last());
    }
}

/// An entry whose label is no colour has no part in the snapshot: the
/// response gives what it gives without that entry, be it a snapshot or an
/// error.
pub proof fn lemma_unknown_label_dropped(entries: Seq<(Seq<char>, Option<Seq<char>>)>, i: int)
    requires
        0 <= i < entries.len(),
        entries[i].1 matches Some(label) && TempoDayState::spec_from(label) is None,
    ensures
        snapshot_of(entries) == snapshot_of(entries.remove(i)),
    decreases entries.len(),
{
    if i == entries.len() - 1 {
        assert(entries.remove(i) =~= entries.drop_last());
    } else {
        lemma_unknown_label_dropped(entries.drop_last(), i);
        assert(entries.remove(i).drop_last() =~= entries.drop_last().remove(i));
        assert(entries.remove(i).last() == entries.last());
    }
}

/// A snapshot holds a day exactly where an entry with that key gives it a
/// colour: a key whose labels are all unknown is absent from it.
pub proof fn lemma_snapshot_days(entries: Seq<(Seq<char>, Option<Seq<char>>)>, key: Seq<char>)
    requires
        snapshot_of(entries) is Ok,
    ensures
        snapshot_of(entries)->Ok_0.contains_key(key) <==> exists|i: int|
            0 <= i < entries.len() && (#[trigger] entries[i]).0 == key && feed_entry(
                key,
                entries[i].1,
            ) is Kept,
    decreases entries.len(),
{
    if entries.len() > 0 {
        let rest = entries.drop_last();
        let n = entries.len() - 1;
        lemma_snapshot_days(rest, key);
        if snapshot_of(entries)->Ok_0.contains_key(key) {
            if snapshot_of(rest)->Ok_0.contains_key(key) {
                let i = choose|i: int|
                    0 <= i < rest.len() && (#[trigger] rest[i]).0 == key && feed_entry(
                        key,
                        rest[i].1,
                    ) is Kept;
                assert(entries[i] == rest[i]);
            } else {
                assert(entries[n].0 == key && feed_entry(key, entries[n].1) is Kept);
            }
        }
        if exists|i: int|
            0 <= i < entries.len() && (#[trigger] entries[i]).0 == key && feed_entry(
                key,
                entries[i].1,
            ) is Kept {
            let i = choose|i: int|
                0 <= i < entries.len() && (#[trigger] entries[i]).0 == key && feed_entry(
                    key,
                    entries[i].1,
                ) is Kept;
            if i < n {
                assert(rest[i] == entries[i]);
            }
        }
    }
}

/// What a snapshot holds under a key is the day written as that key, with
/// the colour of one of the entries of that key, and a day that chrono can
/// read and write back.
pub proof fn lemma_snapshot_day_is_its_key(
    entries: Seq<(Seq<char>, Option<Seq<char>>)>,
    key: Seq<char>,
)
    requires
        snapshot_of(entries) is Ok,
        snapshot_of(entries)->Ok_0.contains_key(key),
    ensures
        snapshot_of(entries)->Ok_0[key].day == key,
        snapshot_of(entries)->Ok_0[key].wf(),
        exists|i: int|
            0 <= i < entries.len() && (#[trigger] entries[i]).0 == key && feed_entry(
                key,
                entries[i].1,
            ) == FeedEntry::Kept(snapshot_of(entries)->Ok_0[key]),
    decreases entries.len(),
{
    if entries.len() > 0 {
        let rest = entries.drop_last();
        let n = entries.len() - 1;
        let kept_last = entries[n].0 == key && feed_entry(key, entries[n].1) is Kept;
        if !kept_last {
            lemma_snapshot_day_is_its_key(rest, key);
            let i = choose|i: int|
                0 <= i < rest.len() && (#[trigger] rest[i]).0 == key && feed_entry(
                    key,
                    rest[i].1,
                ) == FeedEntry::Kept(snapshot_of(rest)->Ok_0[key]);
            assert(entries[i] == rest[i]);
        }
    }
}

} // verus!
