use tempo_bot::tempo::{TempoDay, TempoDayState};

#[test]
fn from_reads_the_three_labels() {
    assert_eq!(TempoDayState::from("BLUE"), Some(TempoDayState::Bleu));
    assert_eq!(TempoDayState::from("WHITE"), Some(TempoDayState::Blanc));
    assert_eq!(TempoDayState::from("RED"), Some(TempoDayState::Rouge));
}

#[test]
fn from_rejects_other_labels() {
    assert_eq!(TempoDayState::from("GREEN"), None);
    assert_eq!(TempoDayState::from("blue"), None);
    assert_eq!(TempoDayState::from("BLEU"), None);
    assert_eq!(TempoDayState::from(""), None);
    assert_eq!(TempoDayState::from("BLUE "), None);
}

#[test]
fn tokens_are_the_french_words() {
    assert_eq!(TempoDayState::Bleu.token(), "BLEU");
    assert_eq!(TempoDayState::Blanc.token(), "BLANC");
    assert_eq!(TempoDayState::Rouge.token(), "ROUGE");
}

#[test]
fn try_new_keeps_day_and_state() {
    let d = TempoDay::try_new("2024-12-25", TempoDayState::Rouge).unwrap();
    assert_eq!(d.day(), "2024-12-25");
    assert_eq!(d.state(), TempoDayState::Rouge);
    assert_eq!(d.day_number(), 739245);
}

#[test]
fn try_new_rejects_what_is_no_day() {
    assert!(TempoDay::try_new("not a day", TempoDayState::Bleu).is_none());
    assert!(TempoDay::try_new("", TempoDayState::Bleu).is_none());
    assert!(TempoDay::try_new("2024-02-30", TempoDayState::Bleu).is_none());
    assert!(TempoDay::try_new("2024-13-01", TempoDayState::Bleu).is_none());
}

#[test]
fn new_agrees_with_try_new() {
    let a = TempoDay::new("2025-03-01", TempoDayState::Blanc);
    let b = TempoDay::try_new("2025-03-01", TempoDayState::Blanc).unwrap();
    assert!(a == b);
    assert_eq!(a.day_number(), b.day_number());
}

#[test]
fn equality_is_by_value() {
    let a = TempoDay::new("2025-03-01", TempoDayState::Blanc);
    let b = TempoDay::new("2025-03-01", TempoDayState::Rouge);
    let c = TempoDay::new("2025-03-02", TempoDayState::Blanc);
    assert!(a == a.clone());
    assert!(a != b);
    assert!(a != c);
}

#[test]
fn mqtt_string_of_christmas_red() {
    let d = TempoDay::new("2024-12-25", TempoDayState::Rouge);
    let s = d.to_mqtt_string();
    assert_eq!(s, "{'day' : '2024-12-25' , 'state' : 'ROUGE'}");
    assert!(s.contains("2024-12-25"));
    assert!(s.contains("ROUGE"));
}

#[test]
fn mqtt_string_of_each_colour() {
    assert_eq!(
        TempoDay::new("2025-01-01", TempoDayState::Bleu).to_mqtt_string(),
        "{'day' : '2025-01-01' , 'state' : 'BLEU'}"
    );
    assert_eq!(
        TempoDay::new("2025-01-02", TempoDayState::Blanc).to_mqtt_string(),
        "{'day' : '2025-01-02' , 'state' : 'BLANC'}"
    );
}

#[test]
fn mqtt_string_reads_back() {
    for state in [TempoDayState::Bleu, TempoDayState::Blanc, TempoDayState::Rouge] {
        let d = TempoDay::new("2024-12-25", state);
        let back = TempoDay::from_mqtt_string(&d.to_mqtt_string()).unwrap();
        assert!(back == d);
        assert_eq!(back.day(), "2024-12-25");
        assert_eq!(back.state(), state);
    }
}

#[test]
fn from_mqtt_string_rejects_other_text() {
    assert!(TempoDay::from_mqtt_string("").is_none());
    assert!(TempoDay::from_mqtt_string("{'day' : '2024-12-25' , 'state' : 'VERT'}").is_none());
    assert!(TempoDay::from_mqtt_string("{'day' : '2024-12-25' , 'state' : 'ROUGE'} ").is_none());
    assert!(TempoDay::from_mqtt_string("{\"day\" : \"2024-12-25\" , \"state\" : \"ROUGE\"}").is_none());
    assert!(TempoDay::from_mqtt_string("{'day' : 'someday' , 'state' : 'ROUGE'}").is_none());
    assert!(TempoDay::from_mqtt_string("{'day' : '' , 'state' : 'BLEU'}").is_none());
}

#[test]
fn french_date_of_christmas() {
    let d = TempoDay::new("2024-12-25", TempoDayState::Rouge);
    assert_eq!(d.to_french_date_string(), "mercredi 25 décembre 2024");
}

#[test]
fn french_date_pads_the_day_of_the_month() {
    let d = TempoDay::new("2025-03-01", TempoDayState::Bleu);
    assert_eq!(d.to_french_date_string(), "samedi 01 mars 2025");
}

#[test]
fn sentence_for_today() {
    let d = TempoDay::new("2024-12-25", TempoDayState::Bleu);
    let s = d.french_complete_string_on(d.day_number());
    assert_eq!(s, "Aujourd'hui mercredi 25 décembre 2024 est bleu 🌊. Tarif minimal.");
}

#[test]
fn sentence_for_another_day() {
    let d = TempoDay::new("2024-12-25", TempoDayState::Blanc);
    let s = d.french_complete_string_on(d.day_number() - 1);
    assert_eq!(s, "Demain mercredi 25 décembre 2024 sera blanc 🏳️. Tarif intermédiaire.");
    let past = d.french_complete_string_on(d.day_number() + 3);
    assert!(past.starts_with("Demain "));
}

#[test]
fn sentence_for_a_red_day() {
    let d = TempoDay::new("2024-12-25", TempoDayState::Rouge);
    let s = d.french_complete_string_on(0);
    assert_eq!(s, "Demain mercredi 25 décembre 2024 sera rouge ♨️. Tarif maximal.");
}

#[test]
fn sentence_by_the_clock() {
    let today = chrono::Utc::now().date_naive();
    let tomorrow = today.succ_opt().unwrap();
    let a = TempoDay::new(&today.format("%Y-%m-%d").to_string(), TempoDayState::Bleu);
    let b = TempoDay::new(&tomorrow.format("%Y-%m-%d").to_string(), TempoDayState::Bleu);
    let sa = a.to_french_complete_string();
    let sb = b.to_french_complete_string();
    // the clock may pass midnight between the lines above and the calls
    if chrono::Utc::now().date_naive() == today {
        assert!(sa.starts_with("Aujourd'hui"));
        assert!(sb.starts_with("Demain"));
    }
}
