//! Tempo days: the colour of a calendar day, and how a day is written for each
//! channel.

use crate::calendar::{
    format_day_localized, localized_day_text, parse_day_number, parsed_day_number, utc_today,
};
use crate::text::{begins_with, finishes_with, has_prefix, has_suffix, joined, same_text};
use vstd::prelude::*;
use vstd::string::*;

verus! {

/// The tariff colour of a day.
#[derive(Debug, PartialEq, Eq, Clone, Copy, Structural)]
pub enum TempoDayState {
    Bleu,
    Blanc,
    Rouge,
}

impl TempoDayState {
    /// The colour that the feed's label `s` stands for.
    pub open spec fn spec_from(s: Seq<char>) -> Option<Self> {
        if s == "BLUE"@ {
            Some(TempoDayState::Bleu)
        } else if s == "RED"@ {
            Some(TempoDayState::Rouge)
        } else if s == "WHITE"@ {
            Some(TempoDayState::Blanc)
        } else {
            None
        }
    }

    /// The token that stands for the colour on the publish channel.
    pub open spec fn spec_token(self) -> Seq<char> {
        match self {
            TempoDayState::Bleu => "BLEU"@,
            TempoDayState::Blanc => "BLANC"@,
            TempoDayState::Rouge => "ROUGE"@,
        }
    }

    /// The end of the sentence that announces the colour.
    pub open spec fn spec_sentence(self) -> Seq<char> {
        match self {
            TempoDayState::Bleu => "bleu 🌊. Tarif minimal."@,
            TempoDayState::Blanc => "blanc 🏳️. Tarif intermédiaire."@,
            TempoDayState::Rouge => "rouge ♨️. Tarif maximal."@,
        }
    }

    /// Reads a label of the feed: `BLUE`, `RED` or `WHITE`. Any other label
    /// is no colour.
    pub fn from(s: &str) -> (r: Option<Self>)
        ensures
            r == Self::spec_from(s@),
    {
        if same_text(s, "BLUE") {
            Some(TempoDayState::Bleu)
        } else if same_text(s, "RED") {
            Some(TempoDayState::Rouge)
        } else if same_text(s, "WHITE") {
            Some(TempoDayState::Blanc)
        } else {
            None
        }
    }

    /// The token that stands for the colour on the publish channel.
    pub fn token(self) -> (r: &'static str)
        ensures
            r@ == self.spec_token(),
    {
        match self {
            TempoDayState::Bleu => "BLEU",
            TempoDayState::Blanc => "BLANC",
            TempoDayState::Rouge => "ROUGE",
        }
    }

    /// The end of the sentence that announces the colour.
    pub fn sentence(self) -> (r: &'static str)
        ensures
            r@ == self.spec_sentence(),
    {
        match self {
            TempoDayState::Bleu => "bleu 🌊. Tarif minimal.",
            TempoDayState::Blanc => "blanc 🏳️. Tarif intermédiaire.",
            TempoDayState::Rouge => "rouge ♨️. Tarif maximal.",
        }
    }
}

/// The text handed to chrono for the day written `day`: the day at midnight,
/// UTC.
pub open spec fn midnight_text(day: Seq<char>) -> Seq<char> {
    day + " 00:00:00+00:00"@
}

/// The French long form of the day `day_number`: weekday, day of the month,
/// month and year. `None` where chrono cannot write it.
pub open spec fn french_date_text(day_number: i32) -> Option<Seq<char>> {
    localized_day_text(day_number, "%A %d %B %Y"@, "fr_FR"@)
}

/// What a `TempoDay` holds.
pub struct TempoDayView {
    /// The day as it was written, `YYYY-MM-DD`.
    pub day: Seq<char>,
    /// The day's number in the calendar.
    pub day_number: i32,
    /// The day's colour.
    pub state: TempoDayState,
}

impl TempoDayView {
    /// The day number is the one chrono reads out of `day`, and chrono can
    /// write that day in French.
    pub open spec fn wf(self) -> bool {
        &&& parsed_day_number(midnight_text(self.day)) == Some(self.day_number)
        &&& french_date_text(self.day_number) is Some
    }

    /// The payload of the publish channel.
    pub open spec fn mqtt_text(self) -> Seq<char> {
        mqtt_payload(self.day, self.state)
    }

    /// The French long form of the day.
    pub open spec fn french_date(self) -> Seq<char> {
        french_date_text(self.day_number).unwrap()
    }

    /// The sentence that announces the day to a reader whose today is
    /// `now`.
    pub open spec fn french_complete_text(self, now: i32) -> Seq<char> {
        french_sentence(self.day_number == now, self.french_date(), self.state)
    }
}

/// The day written `day` with colour `state`; `None` where chrono cannot
/// read `day` or cannot write it back in French.
pub open spec fn tempo_day_of(day: Seq<char>, state: TempoDayState) -> Option<TempoDayView> {
    match parsed_day_number(midnight_text(day)) {
        Some(day_number) => if french_date_text(day_number) is Some {
            Some(TempoDayView { day, day_number, state })
        } else {
            None
        },
        None => None,
    }
}

/// How every payload of the publish channel opens.
pub open spec fn mqtt_opening() -> Seq<char> {
    "{'day' : '"@
}

/// How the payload of a day of colour `state` closes.
pub open spec fn mqtt_closing(state: TempoDayState) -> Seq<char> {
    "' , 'state' : '"@ + state.spec_token() + "'}"@
}

/// The payload that carries `day` and `state` on the publish channel.
pub open spec fn mqtt_payload(day: Seq<char>, state: TempoDayState) -> Seq<char> {
    mqtt_opening() + day + mqtt_closing(state)
}

/// Whether `payload` opens as a payload does and closes as one of colour
/// `state` does, without the two overlapping.
pub open spec fn mqtt_framed(payload: Seq<char>, state: TempoDayState) -> bool {
    &&& mqtt_opening().len() + mqtt_closing(state).len() <= payload.len()
    &&& begins_with(payload, mqtt_opening())
    &&& finishes_with(payload, mqtt_closing(state))
}

/// What stands between the opening and the closing of a payload of colour
/// `state`.
pub open spec fn mqtt_middle(payload: Seq<char>, state: TempoDayState) -> Seq<char> {
    payload.subrange(mqtt_opening().len() as int, payload.len() - mqtt_closing(state).len())
}

/// The day and the colour that `payload` carries; `None` where it is no
/// payload of the publish channel.
pub open spec fn mqtt_fields(payload: Seq<char>) -> Option<(Seq<char>, TempoDayState)> {
    if mqtt_framed(payload, TempoDayState::Bleu) {
        Some((mqtt_middle(payload, TempoDayState::Bleu), TempoDayState::Bleu))
    } else if mqtt_framed(payload, TempoDayState::Blanc) {
        Some((mqtt_middle(payload, TempoDayState::Blanc), TempoDayState::Blanc))
    } else if mqtt_framed(payload, TempoDayState::Rouge) {
        Some((mqtt_middle(payload, TempoDayState::Rouge), TempoDayState::Rouge))
    } else {
        None
    }
}

/// The day that `payload` carries; `None` where it is no payload of the
/// publish channel, or chrono cannot read the day in it.
pub open spec fn mqtt_day(payload: Seq<char>) -> Option<TempoDayView> {
    match mqtt_fields(payload) {
        Some((day, state)) => tempo_day_of(day, state),
        None => None,
    }
}

/// The sentence that announces a day: how it is called (today or tomorrow),
/// its date, the verb in the matching tense, and its colour.
pub open spec fn french_sentence(is_today: bool, date: Seq<char>, state: TempoDayState) -> Seq<
    char,
> {
    if is_today {
        "Aujourd'hui"@ + " "@ + date + " "@ + "est"@ + " "@ + state.spec_sentence()
    } else {
        "Demain"@ + " "@ + date + " "@ + "sera"@ + " "@ + state.spec_sentence()
    }
}

/// One calendar day and its colour.
#[derive(Debug)]
pub struct TempoDay {
    day: String,
    day_number: i32,
    state: TempoDayState,
}

impl View for TempoDay {
    type V = TempoDayView;

    closed spec fn view(&self) -> TempoDayView {
        TempoDayView { day: self.day@, day_number: self.day_number, state: self.state }
    }
}

impl Clone for TempoDay {
    fn clone(&self) -> (r: Self)
        ensures
            r@ == self@,
    {
        proof {
            use_type_invariant(self);
        }
        TempoDay { day: self.day.clone(), day_number: self.day_number, state: self.state }
    }
}

impl PartialEq for TempoDay {
    fn eq(&self, other: &Self) -> (r: bool) {
        self.day == other.day && self.day_number == other.day_number && self.state == other.state
    }
}

impl Eq for TempoDay {

}

impl vstd::std_specs::cmp::PartialEqSpecImpl for TempoDay {
    open spec fn obeys_eq_spec() -> bool {
        true
    }

    open spec fn eq_spec(&self, other: &Self) -> bool {
        self@ == other@
    }
}

impl TempoDay {
    /// Every `TempoDay` is well formed.
    #[verifier::type_invariant]
    pub open spec fn type_wf(self) -> bool {
        self@.wf()
    }

    /// The day written `s`, with colour `state`. `s` must be a day that
    /// chrono can read and write back; `try_new` tests that.
    pub fn new(s: &str, state: TempoDayState) -> (r: Self)
        requires
            tempo_day_of(s@, state) is Some,
        ensures
            Some(r@) == tempo_day_of(s@, state),
    {
        let text = joined(s, " 00:00:00+00:00");
        let day_number = parse_day_number(text.as_str()).unwrap();
        TempoDay { day: s.to_owned(), day_number, state }
    }

    /// The day written `s`, with colour `state`, where chrono can read `s`
    /// and write it back in French; `None` otherwise.
    pub fn try_new(s: &str, state: TempoDayState) -> (r: Option<Self>)
        ensures
            match r {
                Some(d) => Some(d@) == tempo_day_of(s@, state),
                None => tempo_day_of(s@, state) is None,
            },
    {
        let text = joined(s, " 00:00:00+00:00");
        match parse_day_number(text.as_str()) {
            Some(day_number) => match format_day_localized(day_number, "%A %d %B %Y", "fr_FR") {
                Some(_) => Some(Self::new(s, state)),
                None => None,
            },
            None => None,
        }
    }

    /// The day as it was written.
    pub fn day(&self) -> (r: &str)
        ensures
            r@ == self@.day,
    {
        self.day.as_str()
    }

    /// The day's colour.
    pub fn state(&self) -> (r: TempoDayState)
        ensures
            r == self@.state,
    {
        self.state
    }

    /// The day's number in the calendar.
    pub fn day_number(&self) -> (r: i32)
        ensures
            r == self@.day_number,
    {
        self.day_number
    }

    /// The payload of the publish channel: the day and the colour's token.
    pub fn to_mqtt_string(&self) -> (r: String)
        ensures
            r@ == self@.mqtt_text(),
    {
        let mut out = "{'day' : '".to_owned();
        out.append(self.day.as_str());
        out.append(Self::closing(self.state).as_str());
        out
    }

    /// How the payload of a day of colour `state` closes.
    fn closing(state: TempoDayState) -> (r: String)
        ensures
            r@ == mqtt_closing(state),
    {
        let mut out = "' , 'state' : '".to_owned();
        out.append(state.token());
        out.append("'}");
        out
    }

    /// The day and the colour between the opening of `payload` and the
    /// closing for `state`, where `payload` is framed so.
    fn framed_fields(payload: &str, state: TempoDayState) -> (r: Option<String>)
        ensures
            match r {
                Some(day) => mqtt_framed(payload@, state) && day@ == mqtt_middle(payload@, state),
                None => !mqtt_framed(payload@, state),
            },
    {
        let closing = Self::closing(state);
        let n = payload.unicode_len();
        let a = "{'day' : '".unicode_len();
        let b = closing.as_str().unicode_len();
        if b > n || a > n - b {
            return None;
        }
        if has_prefix(payload, "{'day' : '") && has_suffix(payload, closing.as_str()) {
            Some(payload.substring_char(a, n - b).to_owned())
        } else {
            None
        }
    }

    /// Reads a payload of the publish channel back: the day that
    /// `to_mqtt_string` wrote it from.
    pub fn from_mqtt_string(payload: &str) -> (r: Option<Self>)
        ensures
            match r {
                Some(d) => Some(d@) == mqtt_day(payload@),
                None => mqtt_day(payload@) is None,
            },
    {
        if let Some(day) = Self::framed_fields(payload, TempoDayState::Bleu) {
            Self::try_new(day.as_str(), TempoDayState::Bleu)
        } else if let Some(day) = Self::framed_fields(payload, TempoDayState::Blanc) {
            Self::try_new(day.as_str(), TempoDayState::Blanc)
        } else if let Some(day) = Self::framed_fields(payload, TempoDayState::Rouge) {
            Self::try_new(day.as_str(), TempoDayState::Rouge)
        } else {
            None
        }
    }

    /// The French long form of the day, such as `mercredi 25 décembre 2024`.
    pub fn to_french_date_string(&self) -> (r: String)
        ensures
            r@ == self@.french_date(),
    {
        proof {
            use_type_invariant(self);
        }
        format_day_localized(self.day_number, "%A %d %B %Y", "fr_FR").unwrap()
    }

    /// The sentence that announces the day to a reader whose today is the
    /// day `now`: `Aujourd'hui ... est ...` where the day is `now`,
    /// `Demain ... sera ...` for any other day.
    pub fn french_complete_string_on(&self, now: i32) -> (r: String)
        ensures
            r@ == self@.french_complete_text(now),
            self@.day_number == now ==> begins_with(r@, "Aujourd'hui"@),
            self@.day_number != now ==> begins_with(r@, "Demain"@),
    {
        let date = self.to_french_date_string();
        let is_today = self.day_number == now;
        let mut out = if is_today {
            "Aujourd'hui".to_owned()
        } else {
            "Demain".to_owned()
        };
        out.append(" ");
        out.append(date.as_str());
        out.append(" ");
        out.append(if is_today { "est" } else { "sera" });
        out.append(" ");
        out.append(self.state.sentence());
        proof {
            lemma_french_sentence_opening(is_today, date@, self.state);
        }
        out
    }

    /// The sentence that announces the day, as of the day the system clock
    /// shows when it is called.
    pub fn to_french_complete_string(&self) -> (r: String)
        ensures
            exists|now: i32| r@ == self@.french_complete_text(now),
            begins_with(r@, "Aujourd'hui"@) || begins_with(r@, "Demain"@),
    {
        let now = utc_today();
        self.french_complete_string_on(now)
    }
}

/// The sentence for today opens with `Aujourd'hui`, the sentence for any
/// other day with `Demain`.
pub proof fn lemma_french_sentence_opening(is_today: bool, date: Seq<char>, state: TempoDayState)
    ensures
        is_today ==> begins_with(french_sentence(is_today, date, state), "Aujourd'hui"@),
        !is_today ==> begins_with(french_sentence(is_today, date, state), "Demain"@),
        !begins_with(french_sentence(true, date, state), "Demain"@),
        !begins_with(french_sentence(false, date, state), "Aujourd'hui"@),
{
    reveal_strlit("Aujourd'hui");
    reveal_strlit("Demain");
    let t = french_sentence(true, date, state);
    let f = french_sentence(false, date, state);
    assert(t.subrange(0, 11) =~= "Aujourd'hui"@);
    assert(f.subrange(0, 6) =~= "Demain"@);
    assert(t[0] == 'A');
    assert(f[0] == 'D');
    assert(t.subrange(0, 6)[0] == 'A');
    if f.len() >= 11 {
        assert(f.subrange(0, 11)[0] == 'D');
    }
}

/// A payload closes in one way only: the closings of two colours differ in
/// the letter before the last quote.
proof fn lemma_closing_tells_colour(payload: Seq<char>, a: TempoDayState, b: TempoDayState)
    requires
        finishes_with(payload, mqtt_closing(a)),
        finishes_with(payload, mqtt_closing(b)),
    ensures
        a == b,
{
    reveal_strlit("' , 'state' : '");
    reveal_strlit("'}");
    reveal_strlit("BLEU");
    reveal_strlit("BLANC");
    reveal_strlit("ROUGE");
    let ca = mqtt_closing(a);
    let cb = mqtt_closing(b);
    let n = payload.len() as int;
    assert(payload.subrange(n - ca.len(), n)[ca.len() - 3] == payload[n - 3]);
    assert(payload.subrange(n - cb.len(), n)[cb.len() - 3] == payload[n - 3]);
    assert(ca[ca.len() - 3] == a.spec_token().last());
    assert(cb[cb.len() - 3] == b.spec_token().last());
}

/// Reading a payload back gives the day and the colour it was written from,
/// whatever the day's text holds.
pub proof fn lemma_mqtt_round_trip(day: Seq<char>, state: TempoDayState)
    ensures
        mqtt_fields(mqtt_payload(day, state)) == Some((day, state)),
{
    let payload = mqtt_payload(day, state);
    let opening = mqtt_opening();
    let closing = mqtt_closing(state);
    let n = payload.len() as int;
    assert(payload.subrange(0, opening.len() as int) =~= opening);
    assert(payload.subrange(n - closing.len(), n) =~= closing);
    assert(mqtt_middle(payload, state) =~= day);
    assert(mqtt_framed(payload, state));
    if mqtt_framed(payload, TempoDayState::Bleu) {
        lemma_closing_tells_colour(payload, TempoDayState::Bleu, state);
    } else if mqtt_framed(payload, TempoDayState::Blanc) {
        lemma_closing_tells_colour(payload, TempoDayState::Blanc, state);
    }
}

/// Writing a day for the publish channel and reading it back gives the same
/// day: its text, its place in the calendar and its colour.
pub proof fn lemma_mqtt_day_round_trip(d: TempoDayView)
    requires
        d.wf(),
    ensures
        mqtt_day(d.mqtt_text()) == Some(d),
{
    lemma_mqtt_round_trip(d.day, d.state);
}

} // verus!
