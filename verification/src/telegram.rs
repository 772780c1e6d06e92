//! The message sink: what is posted to the chat, and where.

use crate::tempo::{TempoDay, TempoDayView};
use crate::text::joined;
use vstd::prelude::*;
use vstd::string::*;

verus! {

/// The address that messages of the bot with token `bot_token` are posted
/// to.
pub open spec fn post_url_of(bot_token: Seq<char>) -> Seq<char> {
    "https://api.telegram.org/bot"@ + bot_token + "/sendMessage"@
}

/// The line that announces `day`, if there is one, to a reader whose today
/// is `now`.
pub open spec fn day_line(day: Option<TempoDayView>, now: i32) -> Seq<char> {
    match day {
        Some(d) => d.french_complete_text(now),
        None => Seq::empty(),
    }
}

/// The message for a cycle: today's line and a newline where today's colour
/// is known, then tomorrow's line where tomorrow's is. `now_today` and
/// `now_tomorrow` are the days that were today when each line was written.
pub open spec fn message_text(
    today: Option<TempoDayView>,
    now_today: i32,
    tomorrow: Option<TempoDayView>,
    now_tomorrow: i32,
) -> Seq<char> {
    let first = if today is Some {
        day_line(today, now_today) + "\n"@
    } else {
        Seq::empty()
    };
    first + day_line(tomorrow, now_tomorrow)
}

/// The view of an optional day.
pub open spec fn day_view(day: Option<TempoDay>) -> Option<TempoDayView> {
    match day {
        Some(d) => Some(d@),
        None => None,
    }
}

/// One message to post: a JSON body of `chat_id` and `text`, sent once to
/// `url`, with `timeout_secs` seconds to get through.
#[derive(Debug)]
pub struct MessageRequest {
    pub url: String,
    pub chat_id: String,
    pub text: String,
    pub timeout_secs: u64,
}

/// What a `MessageRequest` holds.
pub struct MessageRequestView {
    pub url: Seq<char>,
    pub chat_id: Seq<char>,
    pub text: Seq<char>,
    pub timeout_secs: u64,
}

impl View for MessageRequest {
    type V = MessageRequestView;

    open spec fn view(&self) -> MessageRequestView {
        MessageRequestView {
            url: self.url@,
            chat_id: self.chat_id@,
            text: self.text@,
            timeout_secs: self.timeout_secs,
        }
    }
}

/// The message sink: a chat, and the address of the bot that writes to it.
#[derive(Debug)]
pub struct TGBot {
    chat_id: String,
    post_url: String,
}

/// What a `TGBot` holds.
pub struct TGBotView {
    pub chat_id: Seq<char>,
    pub post_url: Seq<char>,
}

impl TGBotView {
    /// The request that posts `text` to the chat.
    pub open spec fn request(self, text: Seq<char>) -> MessageRequestView {
        MessageRequestView { url: self.post_url, chat_id: self.chat_id, text, timeout_secs: 5 }
    }
}

impl View for TGBot {
    type V = TGBotView;

    closed spec fn view(&self) -> TGBotView {
        TGBotView { chat_id: self.chat_id@, post_url: self.post_url@ }
    }
}

impl TGBot {
    /// The sink that writes to the chat `chat_id` as the bot with token
    /// `bot_token`.
    pub fn new(bot_token: &str, chat_id: &str) -> (r: Self)
        ensures
            r@ == (TGBotView { chat_id: chat_id@, post_url: post_url_of(bot_token@) }),
    {
        let mut post_url = "https://api.telegram.org/bot".to_owned();
        post_url.append(bot_token);
        post_url.append("/sendMessage");
        Self { chat_id: chat_id.to_owned(), post_url }
    }

    /// The request that posts `text` to the chat: one attempt, five seconds.
    pub fn send_message(&self, text: &str) -> (r: MessageRequest)
        ensures
            r@ == self@.request(text@),
    {
        MessageRequest {
            url: self.post_url.clone(),
            chat_id: self.chat_id.clone(),
            text: text.to_owned(),
            timeout_secs: 5,
        }
    }

    /// The line that stands for `text` where messages are printed, not
    /// posted.
    pub fn send_message_mock(&self, text: &str) -> (r: String)
        ensures
            r@ == "TGBot : "@ + text@,
    {
        joined("TGBot : ", text)
    }

    /// The request that announces a cycle's days to a reader whose today is
    /// the day `now`.
    pub fn handle_day_on(&self, today: Option<TempoDay>, tomorrow: Option<TempoDay>, now: i32) -> (r:
        MessageRequest)
        ensures
            r@ == self@.request(message_text(day_view(today), now, day_view(tomorrow), now)),
    {
        let mut msg = String::new();
        if let Some(today) = today {
            msg.append(today.french_complete_string_on(now).as_str());
            msg.append("\n");
        }
        if let Some(tomorrow) = tomorrow {
            msg.append(tomorrow.french_complete_string_on(now).as_str());
        }
        self.send_message(msg.as_str())
    }

    /// The request that announces a cycle's days, each line as of the day
    /// the system clock shows when it is written.
    pub fn handle_day(&self, today: Option<TempoDay>, tomorrow: Option<TempoDay>) -> (r:
        MessageRequest)
        ensures
            exists|now_today: i32, now_tomorrow: i32|
                r@ == self@.request(
                    #[trigger] message_text(
                        day_view(today),
                        now_today,
                        day_view(tomorrow),
                        now_tomorrow,
                    ),
                ),
    {
        let mut msg = String::new();
        let ghost mut now_today: i32 = 0;
        let ghost mut now_tomorrow: i32 = 0;
        if let Some(today) = today {
            let line = today.to_french_complete_string();
            proof {
                now_today = choose|now: i32| line@ == today@.french_complete_text(now);
            }
            msg.append(line.as_str());
            msg.append("\n");
        }
        if let Some(tomorrow) = tomorrow {
            let line = tomorrow.to_french_complete_string();
            proof {
                now_tomorrow = choose|now: i32| line@ == tomorrow@.french_complete_text(now);
            }
            msg.append(line.as_str());
        }
        assert(msg@ == message_text(day_view(today), now_today, day_view(tomorrow), now_tomorrow));
        self.send_message(msg.as_str())
    }
}

} // verus!
