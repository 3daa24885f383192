use rust_player::i18n::{Language, Locale};

#[test]
fn default_is_zh_hant() {
    assert_eq!(Language::default(), Language::ZhHant);
    assert_eq!(Locale::default().language(), Language::ZhHant);
}

#[test]
fn parse_language_codes() {
    assert_eq!(Language::parse("zh-Hant"), Some(Language::ZhHant));
    assert_eq!(Language::parse("zh-tw"), Some(Language::ZhHant));
    assert_eq!(Language::parse("zh"), Some(Language::ZhHant));
    assert_eq!(Language::parse("zh-Hans"), Some(Language::ZhHans));
    assert_eq!(Language::parse("en"), Some(Language::En));
    assert_eq!(Language::parse("ja"), Some(Language::Ja));
    assert!(Language::parse("fr").is_none());
}

#[test]
fn zh_hant_strings() {
    let loc = Locale::new(Language::ZhHant);
    assert_eq!(loc.no_media_open(), "未開啟媒體檔案");
    assert!(loc.unsupported_file_type("txt").contains("不支援"));
}

#[test]
fn en_strings() {
    let loc = Locale::new(Language::En);
    assert_eq!(loc.no_media_open(), "No media file open");
    assert!(loc.unsupported_file_type("txt").contains("Unsupported"));
}

#[test]
fn parse_ignores_ascii_case() {
    assert_eq!(Language::parse("EN-GB"), Some(Language::En));
    assert_eq!(Language::parse("JA-JP"), Some(Language::Ja));
    assert_eq!(Language::parse("ZH-CN"), Some(Language::ZhHans));
    assert_eq!(Language::parse("zh-hk-tw"), Some(Language::ZhHant));
    assert_eq!(Language::parse(""), None);
}

#[test]
fn formatted_texts() {
    let en = Locale::new(Language::En);
    assert_eq!(en.idle_hint(), "Drop a file onto the window, or click \"Open File\"");
    assert_eq!(en.unsupported_file_type("txt"), "Unsupported file type: txt");
    assert_eq!(en.window_title("a.mp4"), "Rust Player — a.mp4");
    assert_eq!(en.window_title_default(), "Rust Player");
    assert_eq!(en.drop_subtitle_active(), "MP4 · M4A · MP3");
    let ja = Locale::new(Language::Ja);
    assert_eq!(ja.idle_hint(), "ファイルをウィンドウにドロップするか、「ファイルを開く」をクリック");
    assert!(ja.usage().contains("Ctrl+O       ファイルを開く"));
    assert_eq!(Language::ZhHans.code(), "zh-Hans");
    assert_eq!(Language::Ja.native_name(), "日本語");
}

#[test]
fn set_language_switches_texts() {
    let mut loc = Locale::default();
    assert_eq!(loc.open_file(), "開啟檔案");
    loc.set_language(Language::ZhHans);
    assert_eq!(loc.open_file(), "打开文件");
    assert_eq!(loc.language(), Language::ZhHans);
}

#[test]
fn language_codes_read_back() {
    for lang in Language::all() {
        assert_eq!(Language::parse(lang.code()), Some(lang));
        assert_eq!(Language::parse(&lang.code().to_uppercase()), Some(lang));
    }
}

#[test]
fn usage_lists_open_file_and_commands() {
    for lang in Language::all() {
        let loc = Locale::new(lang);
        let u = loc.usage();
        assert_eq!(u.matches(loc.open_file()).count(), 2);
        for cmd in ["rust-player audio", "rust-player decode", "rust-player render", "rust-player help"] {
            assert!(u.contains(cmd));
        }
    }
}
