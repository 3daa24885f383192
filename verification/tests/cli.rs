use rust_player::cli::{command_of, decode_frame_count, parse_usize, wants_progress, CliCommand, CliOptions};
use rust_player::i18n::Language;

fn args(a: &[&str]) -> Vec<String> {
    a.iter().map(|s| s.to_string()).collect()
}

#[test]
fn options_are_read() {
    let o = CliOptions::from_args(&args(&["--lang", "EN", "--no-ui", "movie.mp4"]));
    assert_eq!(o.lang, Language::En);
    assert!(o.no_ui);
    assert_eq!(o.path_args, args(&["movie.mp4"]));
    let o = CliOptions::from_args(&args(&["--lang", "klingon", "x"]));
    assert_eq!(o.lang, Language::ZhHant);
    assert_eq!(o.path_args, args(&["x"]));
    let o = CliOptions::from_args(&args(&["a", "--lang"]));
    assert_eq!(o.path_args, args(&["a", "--lang"]));
    let o = CliOptions::from_args(&[]);
    assert_eq!(o.lang, Language::ZhHant);
    assert!(!o.no_ui && o.path_args.is_empty());
}

#[test]
fn commands_are_selected() {
    let cmd = |a: &[&str]| command_of(&CliOptions::from_args(&args(a)));
    assert_eq!(cmd(&[]), CliCommand::Player(None));
    assert_eq!(cmd(&["clip.mp4", "extra"]), CliCommand::Player(Some("clip.mp4".to_string())));
    assert_eq!(cmd(&["audio", "song.mp3", "--progress"]), CliCommand::Audio(args(&["song.mp3", "--progress"])));
    assert_eq!(cmd(&["decode", "v.mp4"]), CliCommand::Decode(args(&["v.mp4"])));
    assert_eq!(cmd(&["render", "v.mp4"]), CliCommand::Render(args(&["v.mp4"])));
    assert_eq!(cmd(&["--help"]), CliCommand::Help);
    assert_eq!(cmd(&["-h"]), CliCommand::Help);
}

#[test]
fn frame_counts() {
    assert_eq!(decode_frame_count(&args(&["v.mp4"])), 30);
    assert_eq!(decode_frame_count(&args(&["v.mp4", "--frames", "5"])), 5);
    assert_eq!(decode_frame_count(&args(&["v.mp4", "--frames", "+7"])), 7);
    assert_eq!(decode_frame_count(&args(&["v.mp4", "--frames", "x"])), 30);
    assert_eq!(decode_frame_count(&args(&["v.mp4", "--frames"])), 30);
    assert_eq!(decode_frame_count(&args(&["--frames", "9"])), 30);
    assert_eq!(parse_usize("42"), Some(42));
    assert_eq!(parse_usize("+"), None);
    assert_eq!(parse_usize("-1"), None);
    assert_eq!(parse_usize("99999999999999999999999"), None);
}

#[test]
fn progress_flag() {
    assert!(wants_progress(&args(&["f.mp3", "--progress"])));
    assert!(!wants_progress(&args(&["f.mp3"])));
}
