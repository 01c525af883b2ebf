use codex_plus_core::completion_sound::{
    completion_sound_notify_config_text, completion_sound_path, completion_sound_script,
    forwarded_notify, previous_notify_script, shell_quote,
};
use toml_edit::DocumentMut;

#[test]
fn completion_sound_notify_config_sets_wrapper_command() {
    let updated = completion_sound_notify_config_text(
        "notify = [\"existing\", \"other-event\"]\n",
        "/tmp/codex-plus-plus/completion-sound-notify.sh",
    )
    .unwrap();

    let doc = updated.parse::<DocumentMut>().unwrap();
    let notify = doc["notify"].as_array().unwrap();
    assert_eq!(
        notify.get(0).and_then(|value| value.as_str()),
        Some("/tmp/codex-plus-plus/completion-sound-notify.sh")
    );
    assert_eq!(notify.get(1).and_then(|value| value.as_str()), Some("turn-ended"));
}

#[test]
fn previous_notify_script_forwards_existing_command() {
    let script = previous_notify_script(&["/tmp/notify tool".to_string(), "turn-ended".to_string()]);

    assert!(script.contains("'/tmp/notify tool' 'turn-ended' \"$@\""));
}

#[test]
fn shell_quote_escapes_single_quotes() {
    assert_eq!(shell_quote("it's"), "'it'\\''s'");
    assert_eq!(shell_quote(""), "''");
}

#[test]
fn notify_config_on_empty_text_creates_the_entry() {
    let updated = completion_sound_notify_config_text("", "/tmp/n.sh").unwrap();
    let doc = updated.parse::<DocumentMut>().unwrap();
    let notify = doc["notify"].as_array().unwrap();
    assert_eq!(notify.get(0).and_then(|value| value.as_str()), Some("/tmp/n.sh"));
}

#[test]
fn notify_config_rejects_invalid_toml() {
    assert!(completion_sound_notify_config_text("notify = [", "/tmp/n.sh").is_err());
}

#[test]
fn forwarded_notify_skips_our_own_script() {
    let previous = vec!["/tmp/n.sh".to_string(), "turn-ended".to_string()];
    assert!(forwarded_notify(Some(previous), "/tmp/n.sh").is_empty());
    let other = vec!["/bin/other".to_string()];
    assert_eq!(forwarded_notify(Some(other.clone()), "/tmp/n.sh"), other);
    assert!(forwarded_notify(None, "/tmp/n.sh").is_empty());
}

#[test]
fn completion_sound_path_falls_back_to_default() {
    assert_eq!(completion_sound_path("  ", "/d/finish.mp3"), "/d/finish.mp3");
    assert_eq!(completion_sound_path(" /x.mp3 ", "/d/finish.mp3"), "/x.mp3");
}

#[test]
fn completion_sound_script_plays_the_sound() {
    let script = completion_sound_script("/tmp/a b.mp3", &[]);
    assert!(script.contains("'/tmp/a b.mp3'"));
}

use codex_plus_core::completion_sound::current_notify_command;

#[test]
fn notify_update_keeps_other_keys() {
    let updated = completion_sound_notify_config_text("\u{feff}model = \"gpt\"\nnotify = \"old\"\n", "/tmp/n.sh").unwrap();
    let doc = updated.parse::<DocumentMut>().unwrap();
    assert_eq!(doc["model"].as_str(), Some("gpt"));
    let notify: Vec<_> = doc["notify"].as_array().unwrap().iter().map(|v| v.as_str().unwrap().to_string()).collect();
    assert_eq!(notify, vec!["/tmp/n.sh".to_string(), "turn-ended".to_string()]);
    assert!(updated.ends_with('\n'));
}

#[test]
fn current_notify_command_reads_string_items() {
    assert_eq!(
        current_notify_command("notify = [\"a\", 1, \"b\"]\n").unwrap(),
        Some(vec!["a".to_string(), "b".to_string()])
    );
    assert_eq!(current_notify_command("notify = [1]\n").unwrap(), None);
    assert_eq!(current_notify_command("notify = \"a\"\n").unwrap(), None);
    assert_eq!(current_notify_command("  \n").unwrap(), None);
    assert!(current_notify_command("notify = [").is_err());
}

#[test]
fn notify_update_keeps_tables() {
    let config = "model = \"gpt\"\n[model_providers.relay]\nbase_url = \"https://x\"\n[[profiles]]\nname = \"a\"\n";
    let updated = completion_sound_notify_config_text(config, "/tmp/n.sh").unwrap();
    let doc = updated.parse::<DocumentMut>().unwrap();
    let keys: Vec<&str> = doc.iter().map(|(k, _)| k).collect();
    assert!(keys.contains(&"model") && keys.contains(&"model_providers") && keys.contains(&"profiles") && keys.contains(&"notify"));
    assert_eq!(doc["model_providers"]["relay"]["base_url"].as_str(), Some("https://x"));
}
