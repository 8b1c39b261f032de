use voice_commands::dispatch::{Dispatcher, Effect, Mode, Phase, Timing};
use voice_commands::table::{CommandConfig, CommandTable, Resolution, TableError};

fn config(pairs: &[(&str, &str)]) -> CommandConfig {
    CommandConfig {
        commands: pairs.iter().map(|(p, a)| (p.to_string(), a.to_string())).collect(),
    }
}

fn example_table() -> CommandTable {
    CommandTable::from_config(&config(&[
        ("open browser", "xdg-open https://example.com"),
        ("lock screen", "loginctl lock-session"),
    ]))
    .unwrap()
}

fn dispatcher() -> Dispatcher {
    Dispatcher::new(example_table(), Timing::standard())
}

fn s(t: &str) -> String {
    t.to_string()
}

fn is_run(e: &Effect, action: &str) -> bool {
    matches!(e, Effect::Run(a) if a == action)
}

#[test]
fn exact_final_runs_its_action_once() {
    let mut d = dispatcher();
    let e = d.on_final(&s("lock screen"), 10);
    assert!(is_run(&e, "loginctl lock-session"));
    assert!(e.resets_decoder());
    assert_eq!(d.phase(), Phase::Idle);
    assert_eq!(d.mode(), Mode::Listening);
}

#[test]
fn partial_stream_runs_once_after_last_element() {
    let mut d = dispatcher();
    let mut runs = 0;
    let stream = ["o", "open", "open br", "open browser"];
    for (k, t) in stream.iter().enumerate() {
        let e = d.on_partial(&s(t), 10 * k as u64);
        if k + 1 < stream.len() {
            assert!(matches!(e, Effect::Wait));
            assert_eq!(d.phase(), Phase::PrefixHolding);
        } else {
            assert!(is_run(&e, "xdg-open https://example.com"));
        }
        if matches!(e, Effect::Run(_)) {
            runs += 1;
        }
    }
    assert_eq!(runs, 1);
    assert_eq!(d.phase(), Phase::Idle);
}

#[test]
fn misspelt_phrase_resolves_by_fuzzy_match() {
    let mut d = dispatcher();
    let e = d.on_final(&s("open browzer"), 5);
    assert!(is_run(&e, "xdg-open https://example.com"));
    let mut d = dispatcher();
    let e = d.on_partial(&s("open browzer"), 5);
    assert!(is_run(&e, "xdg-open https://example.com"));
}

#[test]
fn unrelated_text_is_unmatched_and_resets() {
    let mut d = dispatcher();
    let e = d.on_partial(&s("zzz"), 5);
    assert!(matches!(e, Effect::Unmatched));
    assert!(e.resets_decoder());
    assert_eq!(d.phase(), Phase::Idle);
    let e = d.on_final(&s("zzz"), 6);
    assert!(matches!(e, Effect::Unmatched));
}

#[test]
fn repeated_partial_decides_once() {
    let mut d = dispatcher();
    let first = d.on_partial(&s("lock screen"), 1);
    assert!(is_run(&first, "loginctl lock-session"));
    for k in 2..6u64 {
        let e = d.on_partial(&s("lock screen"), k);
        assert!(matches!(e, Effect::Wait));
    }
}

#[test]
fn prefix_hold_expires_without_action() {
    let mut d = dispatcher();
    assert!(matches!(d.on_partial(&s("lock"), 1000), Effect::Wait));
    assert_eq!(d.phase(), Phase::PrefixHolding);
    assert!(matches!(d.on_tick(1449), Effect::Wait));
    assert_eq!(d.phase(), Phase::PrefixHolding);
    assert!(matches!(d.on_tick(1450), Effect::Reset));
    assert_eq!(d.phase(), Phase::Idle);
}

#[test]
fn prefix_hold_completed_in_window_runs() {
    let mut d = dispatcher();
    assert!(matches!(d.on_partial(&s("lock"), 1000), Effect::Wait));
    assert!(matches!(d.on_tick(1200), Effect::Wait));
    let e = d.on_partial(&s("lock screen"), 1300);
    assert!(is_run(&e, "loginctl lock-session"));
    assert!(matches!(d.on_tick(1500), Effect::Wait));
}

#[test]
fn toggle_phrase_round_trip() {
    let mut d = dispatcher();
    assert!(matches!(d.on_final(&s("type"), 1), Effect::EnterDictation));
    assert_eq!(d.mode(), Mode::Dictation);
    assert!(matches!(d.on_final(&s("type"), 2), Effect::ExitDictation));
    assert_eq!(d.mode(), Mode::Listening);
    let grammar = d.grammar();
    assert_eq!(grammar, vec![s("open browser"), s("lock screen"), s("type")]);
}

#[test]
fn toggle_key_round_trip() {
    let mut d = dispatcher();
    assert!(matches!(d.on_toggle_key(1), Effect::EnterDictation));
    assert_eq!(d.mode(), Mode::Dictation);
    assert!(matches!(d.on_toggle_key(2), Effect::ExitDictation));
    assert_eq!(d.mode(), Mode::Listening);
}

#[test]
fn exit_key_only_leaves_dictation() {
    let mut d = dispatcher();
    assert!(matches!(d.on_exit_key(), Effect::Wait));
    assert_eq!(d.mode(), Mode::Listening);
    d.on_toggle_key(0);
    assert!(matches!(d.on_exit_key(), Effect::ExitDictation));
    assert_eq!(d.mode(), Mode::Listening);
}

#[test]
fn partial_toggle_phrase_enters_dictation() {
    let mut d = dispatcher();
    assert!(matches!(d.on_partial(&s("type"), 1), Effect::EnterDictation));
    assert_eq!(d.mode(), Mode::Dictation);
    // the same partial again is ignored, it does not toggle back
    assert!(matches!(d.on_partial(&s("type"), 2), Effect::Wait));
    assert_eq!(d.mode(), Mode::Dictation);
}

#[test]
fn silence_resets_pending_partial() {
    let timing = Timing { silence_ms: 600, prefix_ms: 600, dictation_idle_ms: 8000 };
    let mut d = Dispatcher::new(example_table(), timing);
    assert!(matches!(d.on_partial(&s("open"), 100), Effect::Wait));
    assert!(matches!(d.on_tick(699), Effect::Wait));
    assert!(matches!(d.on_tick(700), Effect::Reset));
    assert_eq!(d.phase(), Phase::Idle);
    assert!(matches!(d.on_tick(5000), Effect::Wait));
    // the session was cleared: the same partial starts a new hold
    assert!(matches!(d.on_partial(&s("open"), 5100), Effect::Wait));
    assert_eq!(d.phase(), Phase::PrefixHolding);
}

#[test]
fn expired_prefix_hold_can_start_again() {
    let mut d = dispatcher();
    assert!(matches!(d.on_partial(&s("lock"), 0), Effect::Wait));
    assert!(matches!(d.on_tick(450), Effect::Reset));
    assert!(matches!(d.on_partial(&s("lock"), 500), Effect::Wait));
    assert_eq!(d.phase(), Phase::PrefixHolding);
    assert!(matches!(d.on_tick(949), Effect::Wait));
    assert!(matches!(d.on_tick(950), Effect::Reset));
}

#[test]
fn dictation_types_same_words_again_after_silence() {
    let mut d = dispatcher();
    d.on_toggle_key(0);
    assert!(matches!(d.on_partial(&s("hello"), 100), Effect::Type(ref t) if t == "hello"));
    assert!(matches!(d.on_tick(700), Effect::Reset));
    assert!(matches!(d.on_partial(&s("hello"), 900), Effect::Type(ref t) if t == "hello"));
}

#[test]
fn silence_resets_dictation_pass() {
    let mut d = dispatcher();
    d.on_toggle_key(0);
    assert!(matches!(d.on_partial(&s("hello"), 100), Effect::Type(ref t) if t == "hello"));
    assert_eq!(d.phase(), Phase::PartialSeen);
    assert!(matches!(d.on_tick(700), Effect::Reset));
    assert_eq!(d.phase(), Phase::Idle);
    assert_eq!(d.mode(), Mode::Dictation);
}

#[test]
fn dictation_types_only_the_new_text() {
    let mut d = dispatcher();
    d.on_toggle_key(0);
    assert!(matches!(d.on_partial(&s("hello"), 1), Effect::Type(ref t) if t == "hello"));
    assert!(matches!(d.on_partial(&s("hello world"), 2), Effect::Type(ref t) if t == " world"));
    assert!(matches!(d.on_partial(&s("help"), 3), Effect::Type(ref t) if t == "help"));
    let e = d.on_final(&s("help me"), 4);
    assert!(matches!(e, Effect::TypeFinal(ref t) if t == " me"));
    assert!(e.resets_decoder());
    let e = d.on_final(&s("again"), 5);
    assert!(matches!(e, Effect::TypeFinal(ref t) if t == "again"));
}

#[test]
fn dictation_ends_after_idle_timeout() {
    let mut d = dispatcher();
    d.on_toggle_key(1000);
    assert!(matches!(d.on_tick(8999), Effect::Wait));
    assert!(matches!(d.on_tick(9000), Effect::ExitDictation));
    assert_eq!(d.mode(), Mode::Listening);
}

#[test]
fn empty_final_resets_without_action() {
    let mut d = dispatcher();
    d.on_partial(&s("lock"), 1);
    let e = d.on_final(&s(""), 2);
    assert!(matches!(e, Effect::Reset));
    assert_eq!(d.phase(), Phase::Idle);
}

#[test]
fn empty_partial_waits() {
    let mut d = dispatcher();
    assert!(matches!(d.on_partial(&s(""), 1), Effect::Wait));
    assert!(!Effect::Wait.resets_decoder());
}

#[test]
fn table_normalises_phrases() {
    let t = CommandTable::from_config(&config(&[("  Open Browser ", "firefox")])).unwrap();
    assert_eq!(t.phrases(), vec![s("open browser"), s("type")]);
    assert_eq!(t.lookup_exact(&s("open browser")), Some(&s("firefox")));
    assert_eq!(t.lookup_exact(&s("type")), None);
    assert!(t.has_prefix(&s("open")));
    assert!(!t.has_prefix(&s("open browser")));
    assert!(t.has_prefix(&s("ty")));
    assert!(!t.has_prefix(&s("x")));
}

#[test]
fn table_rejects_reserved_phrase() {
    let r = CommandTable::from_config(&config(&[("a", "b"), (" Type", "echo")]));
    assert_eq!(r.err(), Some(TableError::ReservedPhrase));
}

#[test]
fn table_rejects_conflicting_actions() {
    let r = CommandTable::from_config(&config(&[("Lock screen", "a"), ("lock screen ", "b")]));
    assert_eq!(r.err(), Some(TableError::ConflictingActions));
}

#[test]
fn table_accepts_repeated_phrase_with_same_action() {
    let t = CommandTable::from_config(&config(&[("Lock screen", "a"), ("x", "b"), ("lock screen", "a")])).unwrap();
    assert_eq!(t.lookup_exact(&s("lock screen")), Some(&s("a")));
    assert_eq!(t.phrases(), vec![s("lock screen"), s("x"), s("type")]);
}

#[test]
fn classify_follows_rule_order() {
    let t = example_table();
    assert_eq!(t.classify(&s("type")), Resolution::Toggle);
    assert_eq!(t.classify(&s("lock screen")), Resolution::Command(1));
    assert_eq!(t.classify(&s("open browzer")), Resolution::Command(0));
    assert_eq!(t.classify(&s("zzz")), Resolution::Unmatched);
    assert_eq!(t.classify(&s("lo")), Resolution::Prefix);
    assert_eq!(t.classify_partial(&s("open br")), Resolution::Prefix);
    assert_eq!(t.classify(&s("open br")), Resolution::Command(0));
}

#[test]
fn classify_scored_uses_given_scores() {
    let t = example_table();
    let over = 0.95f64.to_bits();
    let under = 0.5f64.to_bits();
    assert_eq!(t.classify_scored(&s("xyz"), &vec![under, over, under]), Resolution::Command(1));
    assert_eq!(t.classify_scored(&s("xyz"), &vec![under, under, over]), Resolution::Toggle);
    assert_eq!(t.classify_scored(&s("xyz"), &vec![under, under, under]), Resolution::Unmatched);
    assert_eq!(t.classify_scored(&s("lock"), &vec![under, under, under]), Resolution::Prefix);
    assert_eq!(t.classify_scored(&s("open browser"), &vec![under, over, under]), Resolution::Command(0));
}
