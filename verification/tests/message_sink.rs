use tempo_bot::mqtt::MQTTHandler;
use tempo_bot::orchestrator::{Action, Sink};
use tempo_bot::telegram::TGBot;
use tempo_bot::tempo::{TempoDay, TempoDayState};

#[test]
fn send_message_builds_the_request() {
    let bot = TGBot::new("123:abc", "-1001");
    let r = bot.send_message("bonjour");
    assert_eq!(r.url, "https://api.telegram.org/bot123:abc/sendMessage");
    assert_eq!(r.chat_id, "-1001");
    assert_eq!(r.text, "bonjour");
    assert_eq!(r.timeout_secs, 5);
}

#[test]
fn send_message_mock_gives_the_printed_line() {
    let bot = TGBot::new("t", "c");
    assert_eq!(bot.send_message_mock("bonjour"), "TGBot : bonjour");
    assert_eq!(bot.send_message_mock(""), "TGBot : ");
}

#[test]
fn message_has_today_then_tomorrow() {
    let bot = TGBot::new("t", "c");
    let today = TempoDay::new("2024-12-24", TempoDayState::Bleu);
    let tomorrow = TempoDay::new("2024-12-25", TempoDayState::Rouge);
    let now = today.day_number();
    let r = bot.handle_day_on(Some(today), Some(tomorrow), now);
    assert_eq!(
        r.text,
        "Aujourd'hui mardi 24 décembre 2024 est bleu 🌊. Tarif minimal.\n\
         Demain mercredi 25 décembre 2024 sera rouge ♨️. Tarif maximal."
    );
    assert_eq!(r.chat_id, "c");
    assert_eq!(r.url, "https://api.telegram.org/bott/sendMessage");
}

#[test]
fn message_without_today_has_one_line() {
    let bot = TGBot::new("t", "c");
    let tomorrow = TempoDay::new("2024-12-25", TempoDayState::Blanc);
    let now = tomorrow.day_number() - 1;
    let r = bot.handle_day_on(None, Some(tomorrow), now);
    assert_eq!(r.text, "Demain mercredi 25 décembre 2024 sera blanc 🏳️. Tarif intermédiaire.");
}

#[test]
fn message_without_tomorrow_ends_with_a_newline() {
    let bot = TGBot::new("t", "c");
    let today = TempoDay::new("2024-12-24", TempoDayState::Bleu);
    let now = today.day_number();
    let r = bot.handle_day_on(Some(today), None, now);
    assert_eq!(r.text, "Aujourd'hui mardi 24 décembre 2024 est bleu 🌊. Tarif minimal.\n");
}

#[test]
fn message_without_days_is_empty() {
    let bot = TGBot::new("t", "c");
    assert_eq!(bot.handle_day_on(None, None, 0).text, "");
    assert_eq!(bot.handle_day(None, None).text, "");
}

#[test]
fn message_by_the_clock_has_both_lines() {
    let bot = TGBot::new("t", "c");
    let a = TempoDay::new("2024-12-24", TempoDayState::Bleu);
    let b = TempoDay::new("2024-12-25", TempoDayState::Rouge);
    let r = bot.handle_day(Some(a), Some(b));
    assert_eq!(
        r.text,
        "Demain mardi 24 décembre 2024 sera bleu 🌊. Tarif minimal.\n\
         Demain mercredi 25 décembre 2024 sera rouge ♨️. Tarif maximal."
    );
}

#[test]
fn each_kind_of_sink_announces_in_its_own_way() {
    let today = Some(TempoDay::new("2024-12-24", TempoDayState::Bleu));
    let tomorrow = TempoDay::new("2024-12-25", TempoDayState::Rouge);
    let now = tomorrow.day_number() - 1;
    let message = Sink::BestEffort(TGBot::new("t", "c"));
    match message.notify(&today, &tomorrow, now) {
        Action::SendMessage(request) => assert_eq!(
            request.text,
            "Aujourd'hui mardi 24 décembre 2024 est bleu 🌊. Tarif minimal.\n\
             Demain mercredi 25 décembre 2024 sera rouge ♨️. Tarif maximal."
        ),
        other => panic!("expected a message, got {:?}", other),
    }
    let publish = Sink::Acknowledged(MQTTHandler::new("b", 1883, "u", "p", "topic", None));
    match publish.notify(&today, &tomorrow, now) {
        Action::Publish(session) => {
            assert_eq!(session.payload, "{'day' : '2024-12-25' , 'state' : 'ROUGE'}");
            assert_eq!(session.topic, "topic");
        }
        other => panic!("expected a publication, got {:?}", other),
    }
}
