use voice_commands::audio::{decode_pcm, is_quiet};
use voice_commands::capture::{Capture, CAPTURE_WINDOW_MS};
use voice_commands::fuzzy::{best_fuzzy_match, best_scored_match, FUZZY_THRESHOLD_BITS};
use voice_commands::keystroke::type_command;
use voice_commands::text::{normalize, starts_with, toggle_phrase, typing_delta};

#[test]
fn threshold_is_ninety_one_hundredths() {
    assert_eq!(f64::from_bits(FUZZY_THRESHOLD_BITS), 0.91);
}

#[test]
fn best_scored_match_picks_highest_then_earliest() {
    let b = |x: f64| x.to_bits();
    assert_eq!(best_scored_match(&vec![b(0.2), b(0.95), b(0.97), b(0.93)]), Some(2));
    assert_eq!(best_scored_match(&vec![b(0.95), b(0.95)]), Some(0));
    assert_eq!(best_scored_match(&vec![b(0.91), b(0.5)]), None);
    assert_eq!(best_scored_match(&vec![]), None);
}

#[test]
fn fuzzy_match_against_phrases() {
    let phrases = vec!["open browser".to_string(), "lock screen".to_string(), "type".to_string()];
    assert_eq!(best_fuzzy_match("open browzer", &phrases), Some(0));
    assert_eq!(best_fuzzy_match("lock scream", &phrases), Some(1));
    assert_eq!(best_fuzzy_match("zzz", &phrases), None);
    assert_eq!(best_fuzzy_match("", &phrases), None);
}

#[test]
fn normalize_trims_and_lowercases() {
    assert_eq!(normalize("  Open BROWSER \n"), "open browser");
    assert_eq!(normalize(""), "");
    assert_eq!(normalize("\u{3000}Lock\u{a0}Screen\u{2009}\t"), "lock\u{a0}screen");
    assert_eq!(normalize(" \u{85} "), "");
    assert_eq!(toggle_phrase(), "type");
}

#[test]
fn prefix_and_delta() {
    assert!(starts_with("open browser", "open"));
    assert!(starts_with("open", ""));
    assert!(!starts_with("open", "open browser"));
    assert_eq!(typing_delta("hello", "hello there"), " there");
    assert_eq!(typing_delta("hello", "help"), "help");
    assert_eq!(typing_delta("", "abc"), "abc");
    assert_eq!(typing_delta("abc", "abc"), "");
}

#[test]
fn type_command_quotes_text() {
    assert_eq!(type_command("hello world"), "xdotool type 'hello world'");
    assert_eq!(type_command("it's"), "xdotool type 'it'\\''s'");
    assert_eq!(type_command(""), "xdotool type ''");
}

#[test]
fn pcm_decoding_and_quiet_chunks() {
    let (samples, rest) = decode_pcm(None, &[0x01, 0x00, 0xff, 0xff, 0x00, 0x80, 0xff, 0x7f, 0x09]);
    assert_eq!(samples, vec![1, -1, -32768, 32767]);
    assert_eq!(rest, Some(0x09));
    assert!(is_quiet(&vec![0, 59, -59]));
    assert!(!is_quiet(&vec![0, 60]));
    assert!(!is_quiet(&vec![-60]));
    assert!(!is_quiet(&samples));
    assert!(is_quiet(&vec![]));
}

#[test]
fn pcm_odd_reads_carry_a_byte() {
    let (first, carry) = decode_pcm(None, &[0x34]);
    assert!(first.is_empty());
    assert_eq!(carry, Some(0x34));
    let (second, carry) = decode_pcm(carry, &[0x12]);
    assert_eq!(second, vec![0x1234]);
    assert_eq!(carry, None);
    let (a, carry) = decode_pcm(None, &[0x01, 0x00, 0x02]);
    let (b, carry) = decode_pcm(carry, &[0x00, 0x03, 0x00]);
    assert_eq!(a, vec![1]);
    assert_eq!(b, vec![2, 3]);
    assert_eq!(carry, None);
    assert_eq!(decode_pcm(None, &[]), (vec![], None));
}

#[test]
fn capture_concludes_after_window_with_latest_text() {
    let mut c = Capture::start(1000, CAPTURE_WINDOW_MS);
    assert_eq!(c.on_tick(1000), None);
    c.on_hypothesis(&"weather".to_string());
    c.on_hypothesis(&"weather today".to_string());
    c.on_hypothesis(&"".to_string());
    assert_eq!(c.on_tick(5999), None);
    assert_eq!(c.on_tick(6000), Some("weather today".to_string()));
}

#[test]
fn capture_may_conclude_empty() {
    let c = Capture::start(0, 5000);
    assert_eq!(c.on_tick(7000), Some(String::new()));
}
