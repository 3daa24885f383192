//! Localised UI and CLI text. The default language is Traditional Chinese.
use vstd::prelude::*;
use vstd::string::StringExecFns;
use crate::text::{ascii_lowercase, ascii_lower, chars_eq, occurs_at};

verus! {

/// Languages of the interface.
#[derive(Clone, Copy, PartialEq, Eq, Debug, Structural)]
pub enum Language {
    ZhHant,
    ZhHans,
    En,
    Ja,
}

impl Default for Language {
    fn default() -> (r: Self)
        ensures
            r == Language::ZhHant,
    {
        Language::ZhHant
    }
}

/// The language named by a lower-case language tag, if it is one of the known tags.
pub open spec fn language_of_tag(t: Seq<char>) -> Option<Language> {
    if t == "zh-hant"@ || t == "zh-tw"@ || t == "zh-hk"@ || t == "zh-mo"@ || t == "zh-hk-tw"@ {
        Some(Language::ZhHant)
    } else if t == "zh-hans"@ || t == "zh-cn"@ || t == "zh-sg"@ {
        Some(Language::ZhHans)
    } else if t == "zh"@ {
        Some(Language::ZhHant)
    } else if t == "en"@ || t == "en-us"@ || t == "en-gb"@ {
        Some(Language::En)
    } else if t == "ja"@ || t == "ja-jp"@ {
        Some(Language::Ja)
    } else {
        None
    }
}

/// BCP 47 tag of a language.
pub open spec fn code_text(l: Language) -> Seq<char> {
    match l {
        Language::ZhHant => "zh-Hant"@,
        Language::ZhHans => "zh-Hans"@,
        Language::En => "en"@,
        Language::Ja => "ja"@,
    }
}

/// A language's own name for itself.
pub open spec fn native_name_text(l: Language) -> Seq<char> {
    match l {
        Language::ZhHant => "繁體中文"@,
        Language::ZhHans => "简体中文"@,
        Language::En => "English"@,
        Language::Ja => "日本語"@,
    }
}

/// Title-bar text when no media is open.
pub open spec fn no_media_open_text(l: Language) -> Seq<char> {
    match l {
        Language::ZhHant => "未開啟媒體檔案"@,
        Language::ZhHans => "未打开媒体文件"@,
        Language::En => "No media file open"@,
        Language::Ja => "メディアファイル未選択"@,
    }
}

/// Label of the open-file action.
pub open spec fn open_file_text(l: Language) -> Seq<char> {
    match l {
        Language::ZhHant => "開啟檔案"@,
        Language::ZhHans => "打开文件"@,
        Language::En => "Open File"@,
        Language::Ja => "ファイルを開く"@,
    }
}

/// Label of the language selector.
pub open spec fn language_label_text(l: Language) -> Seq<char> {
    match l {
        Language::ZhHant => "語言"@,
        Language::ZhHans => "语言"@,
        Language::En => "Language"@,
        Language::Ja => "言語"@,
    }
}

/// Drop target title while idle.
pub open spec fn drop_title_idle_text(l: Language) -> Seq<char> {
    match l {
        Language::ZhHant => "拖放媒體檔案至此"@,
        Language::ZhHans => "拖放媒体文件到此处"@,
        Language::En => "Drop media file here"@,
        Language::Ja => "メディアファイルをここにドロップ"@,
    }
}

/// Drop target title while a file is dragged over the window.
pub open spec fn drop_title_active_text(l: Language) -> Seq<char> {
    match l {
        Language::ZhHant => "放開以開始播放"@,
        Language::ZhHans => "松开以开始播放"@,
        Language::En => "Release to play"@,
        Language::Ja => "離して再生開始"@,
    }
}

/// Drop target subtitle while idle.
pub open spec fn drop_subtitle_idle_text(l: Language) -> Seq<char> {
    match l {
        Language::ZhHant => "參考 VLC / ffplay — 拖曳檔案即可播放"@,
        Language::ZhHans => "参考 VLC / ffplay — 拖入文件即可播放"@,
        Language::En => "Like VLC / ffplay — drag a file to play"@,
        Language::Ja => "VLC / ffplay 風 — ドラッグで再生"@,
    }
}

/// Stand-in for a missing file extension.
pub open spec fn unknown_extension_text(l: Language) -> Seq<char> {
    match l {
        Language::ZhHant => "未知"@,
        Language::ZhHans => "未知"@,
        Language::En => "unknown"@,
        Language::Ja => "不明"@,
    }
}

/// Title of the file dialog.
pub open spec fn file_dialog_title_text(l: Language) -> Seq<char> {
    match l {
        Language::ZhHant => "開啟媒體檔案"@,
        Language::ZhHans => "打开媒体文件"@,
        Language::En => "Open Media File"@,
        Language::Ja => "メディアファイルを開く"@,
    }
}

/// Name of the media filter in the file dialog.
pub open spec fn file_dialog_filter_text(l: Language) -> Seq<char> {
    match l {
        Language::ZhHant => "媒體檔案"@,
        Language::ZhHans => "媒体文件"@,
        Language::En => "Media Files"@,
        Language::Ja => "メディアファイル"@,
    }
}

/// Warning shown when no audio device is available.
pub open spec fn virtual_audio_warning_text(l: Language) -> Seq<char> {
    match l {
        Language::ZhHant => "無音訊輸出裝置，已啟用虛擬音訊（僅同步時間軸）"@,
        Language::ZhHans => "无音频输出设备，已启用虚拟音频（仅同步时间轴）"@,
        Language::En => "No audio output device; using virtual audio (clock sync only)"@,
        Language::Ja => "音声出力デバイスなし。仮想音声で同期のみ"@,
    }
}

/// Error when headless mode is asked for without a media path.
pub open spec fn headless_requires_path_text(l: Language) -> Seq<char> {
    match l {
        Language::ZhHant => "無介面模式需要指定媒體檔案路徑"@,
        Language::ZhHans => "无界面模式需要指定媒体文件路径"@,
        Language::En => "Headless mode requires a media file path"@,
        Language::Ja => "ヘッドレスモードにはメディアファイルのパスが必要です"@,
    }
}

/// Fixed text before the open-file label in the idle hint.
pub open spec fn idle_hint_part0(l: Language) -> Seq<char> {
    match l {
        Language::ZhHant => "拖放檔案至視窗，或點擊「"@,
        Language::ZhHans => "拖放文件到窗口，或点击「"@,
        Language::En => "Drop a file onto the window, or click \""@,
        Language::Ja => "ファイルをウィンドウにドロップするか、「"@,
    }
}

/// Fixed text after the open-file label in the idle hint.
pub open spec fn idle_hint_part1(l: Language) -> Seq<char> {
    match l {
        Language::ZhHant => "」"@,
        Language::ZhHans => "」"@,
        Language::En => "\""@,
        Language::Ja => "」をクリック"@,
    }
}

/// Fixed text before the extension in the unsupported-file message.
pub open spec fn unsupported_part0(l: Language) -> Seq<char> {
    match l {
        Language::ZhHant => "不支援的檔案類型："@,
        Language::ZhHans => "不支持的文件类型："@,
        Language::En => "Unsupported file type: "@,
        Language::Ja => "未対応のファイル形式："@,
    }
}

/// Part 0 of the usage text, around the open-file label.
pub open spec fn usage_part0(l: Language) -> Seq<char> {
    match l {
        Language::ZhHant => "rust-player — Rust 原生媒體播放器\n\n用法：\n  rust-player                              啟動播放器（拖放 / "@,
        Language::ZhHans => "rust-player — Rust 原生媒体播放器\n\n用法：\n  rust-player                              启动播放器（拖放 / "@,
        Language::En => "rust-player — native Rust media player\n\nUsage:\n  rust-player                              Launch player (drag & drop / "@,
        Language::Ja => "rust-player — Rust ネイティブメディアプレーヤー\n\n使い方：\n  rust-player                              プレーヤー起動（ドロップ / "@,
    }
}

/// Part 1 of the usage text, around the open-file label.
pub open spec fn usage_part1(l: Language) -> Seq<char> {
    match l {
        Language::ZhHant => "）\n  rust-player <檔案> [--no-ui] [--lang]    開啟媒體檔案\n  rust-player audio <檔案> [--progress]    Phase 1：音訊播放\n  rust-player decode <檔案> [--frames N]     Phase 2：視訊解碼\n  rust-player render <檔案>                Phase 3：GPU 渲染\n  rust-player <URL>                        Phase 8：HTTP / HLS 串流\n  rust-player help\n\n語言（--lang）：\n  zh-Hant（預設）· zh-Hans · en · ja\n\n快捷鍵：\n  Space        播放 / 暫停\n  ← / →        快轉 ±10 秒\n  Ctrl+O       "@,
        Language::ZhHans => "）\n  rust-player <文件> [--no-ui] [--lang]    打开媒体文件\n  rust-player audio <文件> [--progress]    Phase 1：音频播放\n  rust-player decode <文件> [--frames N]     Phase 2：视频解码\n  rust-player render <文件>                Phase 3：GPU 渲染\n  rust-player help\n\n语言（--lang）：\n  zh-Hant · zh-Hans（默认繁体可用 zh-Hant）· en · ja\n\n快捷键：\n  Space        播放 / 暂停\n  ← / →        快进 ±10 秒\n  Ctrl+O       "@,
        Language::En => ")\n  rust-player <file> [--no-ui] [--lang]     Open media file\n  rust-player audio <file> [--progress]     Phase 1: audio playback\n  rust-player decode <file> [--frames N]    Phase 2: video decode\n  rust-player render <file>                 Phase 3: GPU render\n  rust-player help\n\nLanguages (--lang):\n  zh-Hant (default) · zh-Hans · en · ja\n\nShortcuts:\n  Space        Play / Pause\n  ← / →        Seek ±10s\n  Ctrl+O       "@,
        Language::Ja => "）\n  rust-player <ファイル> [--no-ui] [--lang]  メディアを開く\n  rust-player audio <ファイル> [--progress]  Phase 1：音声再生\n  rust-player decode <ファイル> [--frames N] Phase 2：動画デコード\n  rust-player render <ファイル>              Phase 3：GPU レンダリング\n  rust-player help\n\n言語（--lang）：\n  zh-Hant（既定）· zh-Hans · en · ja\n\nショートカット：\n  Space        再生 / 一時停止\n  ← / →        ±10 秒シーク\n  Ctrl+O       "@,
    }
}

/// Part 2 of the usage text, around the open-file label.
pub open spec fn usage_part2(l: Language) -> Seq<char> {
    match l {
        Language::ZhHant => "\n"@,
        Language::ZhHans => "\n"@,
        Language::En => "\n"@,
        Language::Ja => "\n"@,
    }
}

/// Idle hint: how to open a file.
pub open spec fn idle_hint_text(l: Language) -> Seq<char> {
    idle_hint_part0(l) + open_file_text(l) + idle_hint_part1(l)
}

/// Usage text of the command line.
pub open spec fn usage_text(l: Language) -> Seq<char> {
    usage_part0(l) + open_file_text(l) + usage_part1(l) + open_file_text(l) + usage_part2(l)
}

/// The application's name.
pub open spec fn app_name_text() -> Seq<char> {
    "Rust Player"@
}

/// The supported container formats.
pub open spec fn supported_formats_text() -> Seq<char> {
    "MP4 · M4A · MP3"@
}

impl Language {
    /// Every language, in the order the language selector lists them.
    pub fn all() -> (r: [Language; 4])
        ensures
            r@ == seq![Language::ZhHant, Language::ZhHans, Language::En, Language::Ja],
    {
        [Language::ZhHant, Language::ZhHans, Language::En, Language::Ja]
    }

    /// Parses a language tag, ignoring ASCII case.
    pub fn parse(s: &str) -> (r: Option<Self>)
        ensures
            r == language_of_tag(ascii_lower(s@)),
    {
        let t = ascii_lowercase(s);
        let t = t.as_slice();
        if chars_eq(t, "zh-hant") || chars_eq(t, "zh-tw") || chars_eq(t, "zh-hk") || chars_eq(
            t,
            "zh-mo",
        ) || chars_eq(t, "zh-hk-tw") {
            Some(Language::ZhHant)
        } else if chars_eq(t, "zh-hans") || chars_eq(t, "zh-cn") || chars_eq(t, "zh-sg") {
            Some(Language::ZhHans)
        } else if chars_eq(t, "zh") {
            Some(Language::ZhHant)
        } else if chars_eq(t, "en") || chars_eq(t, "en-us") || chars_eq(t, "en-gb") {
            Some(Language::En)
        } else if chars_eq(t, "ja") || chars_eq(t, "ja-jp") {
            Some(Language::Ja)
        } else {
            None
        }
    }

    pub fn code(self) -> (r: &'static str)
        ensures
            r@ == code_text(self),
    {
        match self {
            Language::ZhHant => "zh-Hant",
            Language::ZhHans => "zh-Hans",
            Language::En => "en",
            Language::Ja => "ja",
        }
    }

    pub fn native_name(self) -> (r: &'static str)
        ensures
            r@ == native_name_text(self),
    {
        match self {
            Language::ZhHant => "繁體中文",
            Language::ZhHans => "简体中文",
            Language::En => "English",
            Language::Ja => "日本語",
        }
    }

}

/// The interface language in use.
#[derive(Clone, Copy)]
pub struct Locale {
    lang: Language,
}

impl Default for Locale {
    fn default() -> (r: Self)
        ensures
            r.lang() == Language::ZhHant,
    {
        Locale { lang: Language::ZhHant }
    }
}

impl Locale {
    pub closed spec fn lang(self) -> Language {
        self.lang
    }

    pub fn new(lang: Language) -> (r: Self)
        ensures
            r.lang() == lang,
    {
        Self { lang }
    }

    pub fn language(self) -> (r: Language)
        ensures
            r == self.lang(),
    {
        self.lang
    }

    pub fn set_language(&mut self, lang: Language)
        ensures
            final(self).lang() == lang,
    {
        self.lang = lang;
    }

    pub fn app_name(self) -> (r: &'static str)
        ensures
            r@ == app_name_text(),
    {
        "Rust Player"
    }

    pub fn supported_formats(self) -> (r: &'static str)
        ensures
            r@ == supported_formats_text(),
    {
        "MP4 · M4A · MP3"
    }

    pub fn drop_subtitle_active(self) -> (r: &'static str)
        ensures
            r@ == supported_formats_text(),
    {
        self.supported_formats()
    }


    pub fn no_media_open(self) -> (r: &'static str)
        ensures
            r@ == no_media_open_text(self.lang()),
    {
        match self.lang {
            Language::ZhHant => "未開啟媒體檔案",
            Language::ZhHans => "未打开媒体文件",
            Language::En => "No media file open",
            Language::Ja => "メディアファイル未選択",
        }
    }

    pub fn open_file(self) -> (r: &'static str)
        ensures
            r@ == open_file_text(self.lang()),
    {
        match self.lang {
            Language::ZhHant => "開啟檔案",
            Language::ZhHans => "打开文件",
            Language::En => "Open File",
            Language::Ja => "ファイルを開く",
        }
    }

    pub fn language_label(self) -> (r: &'static str)
        ensures
            r@ == language_label_text(self.lang()),
    {
        match self.lang {
            Language::ZhHant => "語言",
            Language::ZhHans => "语言",
            Language::En => "Language",
            Language::Ja => "言語",
        }
    }

    pub fn drop_title_idle(self) -> (r: &'static str)
        ensures
            r@ == drop_title_idle_text(self.lang()),
    {
        match self.lang {
            Language::ZhHant => "拖放媒體檔案至此",
            Language::ZhHans => "拖放媒体文件到此处",
            Language::En => "Drop media file here",
            Language::Ja => "メディアファイルをここにドロップ",
        }
    }

    pub fn drop_title_active(self) -> (r: &'static str)
        ensures
            r@ == drop_title_active_text(self.lang()),
    {
        match self.lang {
            Language::ZhHant => "放開以開始播放",
            Language::ZhHans => "松开以开始播放",
            Language::En => "Release to play",
            Language::Ja => "離して再生開始",
        }
    }

    pub fn drop_subtitle_idle(self) -> (r: &'static str)
        ensures
            r@ == drop_subtitle_idle_text(self.lang()),
    {
        match self.lang {
            Language::ZhHant => "參考 VLC / ffplay — 拖曳檔案即可播放",
            Language::ZhHans => "参考 VLC / ffplay — 拖入文件即可播放",
            Language::En => "Like VLC / ffplay — drag a file to play",
            Language::Ja => "VLC / ffplay 風 — ドラッグで再生",
        }
    }

    pub fn unknown_extension(self) -> (r: &'static str)
        ensures
            r@ == unknown_extension_text(self.lang()),
    {
        match self.lang {
            Language::ZhHant => "未知",
            Language::ZhHans => "未知",
            Language::En => "unknown",
            Language::Ja => "不明",
        }
    }

    pub fn file_dialog_title(self) -> (r: &'static str)
        ensures
            r@ == file_dialog_title_text(self.lang()),
    {
        match self.lang {
            Language::ZhHant => "開啟媒體檔案",
            Language::ZhHans => "打开媒体文件",
            Language::En => "Open Media File",
            Language::Ja => "メディアファイルを開く",
        }
    }

    pub fn file_dialog_filter(self) -> (r: &'static str)
        ensures
            r@ == file_dialog_filter_text(self.lang()),
    {
        match self.lang {
            Language::ZhHant => "媒體檔案",
            Language::ZhHans => "媒体文件",
            Language::En => "Media Files",
            Language::Ja => "メディアファイル",
        }
    }

    pub fn virtual_audio_warning(self) -> (r: &'static str)
        ensures
            r@ == virtual_audio_warning_text(self.lang()),
    {
        match self.lang {
            Language::ZhHant => "無音訊輸出裝置，已啟用虛擬音訊（僅同步時間軸）",
            Language::ZhHans => "无音频输出设备，已启用虚拟音频（仅同步时间轴）",
            Language::En => "No audio output device; using virtual audio (clock sync only)",
            Language::Ja => "音声出力デバイスなし。仮想音声で同期のみ",
        }
    }

    pub fn headless_requires_path(self) -> (r: &'static str)
        ensures
            r@ == headless_requires_path_text(self.lang()),
    {
        match self.lang {
            Language::ZhHant => "無介面模式需要指定媒體檔案路徑",
            Language::ZhHans => "无界面模式需要指定媒体文件路径",
            Language::En => "Headless mode requires a media file path",
            Language::Ja => "ヘッドレスモードにはメディアファイルのパスが必要です",
        }
    }

    /// Hint shown while no media is open.
    pub fn idle_hint(self) -> (r: String)
        ensures
            r@ == idle_hint_text(self.lang()),
    {
        let open = self.open_file();
        let (a, b) = match self.lang {
            Language::ZhHant => ("拖放檔案至視窗，或點擊「", "」"),
            Language::ZhHans => ("拖放文件到窗口，或点击「", "」"),
            Language::En => ("Drop a file onto the window, or click \"", "\""),
            Language::Ja => ("ファイルをウィンドウにドロップするか、「", "」をクリック"),
        };
        let mut r = String::from_str(a);
        r.append(open);
        r.append(b);
        r
    }

    /// Error for a file of an unsupported type with extension `ext`.
    pub fn unsupported_file_type(self, ext: &str) -> (r: String)
        ensures
            r@ == unsupported_part0(self.lang()) + ext@,
    {
        let a = match self.lang {
            Language::ZhHant => "不支援的檔案類型：",
            Language::ZhHans => "不支持的文件类型：",
            Language::En => "Unsupported file type: ",
            Language::Ja => "未対応のファイル形式：",
        };
        let mut r = String::from_str(a);
        r.append(ext);
        r
    }

    /// Window title naming the open file.
    pub fn window_title(self, filename: &str) -> (r: String)
        ensures
            r@ == app_name_text() + " — "@ + filename@,
    {
        let mut r = String::from_str(self.app_name());
        r.append(" — ");
        r.append(filename);
        r
    }

    /// Window title with no file open.
    pub fn window_title_default(self) -> (r: String)
        ensures
            r@ == app_name_text(),
    {
        String::from_str(self.app_name())
    }

    /// Usage text of the command line.
    pub fn usage(self) -> (r: String)
        ensures
            r@ == usage_text(self.lang()),
    {
        let open = self.open_file();
        let (a, b, c) = match self.lang {
            Language::ZhHant => ("rust-player — Rust 原生媒體播放器\n\n用法：\n  rust-player                              啟動播放器（拖放 / ", "）\n  rust-player <檔案> [--no-ui] [--lang]    開啟媒體檔案\n  rust-player audio <檔案> [--progress]    Phase 1：音訊播放\n  rust-player decode <檔案> [--frames N]     Phase 2：視訊解碼\n  rust-player render <檔案>                Phase 3：GPU 渲染\n  rust-player <URL>                        Phase 8：HTTP / HLS 串流\n  rust-player help\n\n語言（--lang）：\n  zh-Hant（預設）· zh-Hans · en · ja\n\n快捷鍵：\n  Space        播放 / 暫停\n  ← / →        快轉 ±10 秒\n  Ctrl+O       ", "\n"),
            Language::ZhHans => ("rust-player — Rust 原生媒体播放器\n\n用法：\n  rust-player                              启动播放器（拖放 / ", "）\n  rust-player <文件> [--no-ui] [--lang]    打开媒体文件\n  rust-player audio <文件> [--progress]    Phase 1：音频播放\n  rust-player decode <文件> [--frames N]     Phase 2：视频解码\n  rust-player render <文件>                Phase 3：GPU 渲染\n  rust-player help\n\n语言（--lang）：\n  zh-Hant · zh-Hans（默认繁体可用 zh-Hant）· en · ja\n\n快捷键：\n  Space        播放 / 暂停\n  ← / →        快进 ±10 秒\n  Ctrl+O       ", "\n"),
            Language::En => ("rust-player — native Rust media player\n\nUsage:\n  rust-player                              Launch player (drag & drop / ", ")\n  rust-player <file> [--no-ui] [--lang]     Open media file\n  rust-player audio <file> [--progress]     Phase 1: audio playback\n  rust-player decode <file> [--frames N]    Phase 2: video decode\n  rust-player render <file>                 Phase 3: GPU render\n  rust-player help\n\nLanguages (--lang):\n  zh-Hant (default) · zh-Hans · en · ja\n\nShortcuts:\n  Space        Play / Pause\n  ← / →        Seek ±10s\n  Ctrl+O       ", "\n"),
            Language::Ja => ("rust-player — Rust ネイティブメディアプレーヤー\n\n使い方：\n  rust-player                              プレーヤー起動（ドロップ / ", "）\n  rust-player <ファイル> [--no-ui] [--lang]  メディアを開く\n  rust-player audio <ファイル> [--progress]  Phase 1：音声再生\n  rust-player decode <ファイル> [--frames N] Phase 2：動画デコード\n  rust-player render <ファイル>              Phase 3：GPU レンダリング\n  rust-player help\n\n言語（--lang）：\n  zh-Hant（既定）· zh-Hans · en · ja\n\nショートカット：\n  Space        再生 / 一時停止\n  ← / →        ±10 秒シーク\n  Ctrl+O       ", "\n"),
        };
        let mut r = String::from_str(a);
        r.append(open);
        r.append(b);
        r.append(open);
        r.append(c);
        r
    }
}

/// Every language's tag reads back as that language, whatever its case.
pub proof fn law_language_code_round_trip(l: Language)
    ensures
        language_of_tag(ascii_lower(code_text(l))) == Some(l),
{
    reveal_strlit("zh-Hant");
    reveal_strlit("zh-hant");
    reveal_strlit("zh-Hans");
    reveal_strlit("zh-hans");
    reveal_strlit("zh-tw");
    reveal_strlit("zh-hk");
    reveal_strlit("zh-mo");
    reveal_strlit("zh-hk-tw");
    reveal_strlit("zh");
    reveal_strlit("zh-cn");
    reveal_strlit("zh-sg");
    reveal_strlit("en");
    reveal_strlit("en-us");
    reveal_strlit("en-gb");
    reveal_strlit("ja");
    reveal_strlit("ja-jp");
    let t = ascii_lower(code_text(l));
    match l {
        Language::ZhHant => {
            assert(t =~= "zh-hant"@);
            assert(language_of_tag(t) == Some(Language::ZhHant));
        },
        Language::ZhHans => {
            assert(t =~= "zh-hans"@);
            assert(t[6] != "zh-hant"@[6]);
            assert(language_of_tag(t) == Some(Language::ZhHans));
        },
        Language::En => {
            assert(t =~= "en"@);
            assert(t[0] != "zh"@[0]);
            assert(language_of_tag(t) == Some(Language::En));
        },
        Language::Ja => {
            assert(t =~= "ja"@);
            assert(t[0] != "zh"@[0]);
            assert(t[0] != "en"@[0]);
            assert(language_of_tag(t) == Some(Language::Ja));
        },
    }
}

/// `pat` found in the middle part of the usage text is found in the whole
/// text, after the first part and the open-file label.
proof fn lemma_occurs_in_usage_part1(l: Language, pat: Seq<char>, k: int)
    requires
        occurs_at(usage_part1(l), pat, k),
    ensures
        occurs_at(usage_text(l), pat, usage_part0(l).len() + open_file_text(l).len() + k),
{
    let off = usage_part0(l).len() + open_file_text(l).len() + k;
    assert(usage_text(l).subrange(off, off + pat.len()) =~= usage_part1(l).subrange(k, k + pat.len()));
}

/// The usage text names the open-file action twice (on the launch line and
/// on its shortcut line) and lists the audio, decode, render and help
/// commands, in every language.
pub proof fn law_usage_lists_commands(l: Language)
    ensures
        occurs_at(usage_text(l), open_file_text(l), usage_part0(l).len() as int),
        occurs_at(
            usage_text(l),
            open_file_text(l),
            (usage_part0(l).len() + open_file_text(l).len() + usage_part1(l).len()) as int,
        ),
        exists|i: int| occurs_at(usage_text(l), "rust-player audio"@, i),
        exists|i: int| occurs_at(usage_text(l), "rust-player decode"@, i),
        exists|i: int| occurs_at(usage_text(l), "rust-player render"@, i),
        exists|i: int| occurs_at(usage_text(l), "rust-player help"@, i),
{
    let u = usage_text(l);
    let a = usage_part0(l).len() as int;
    let o = open_file_text(l).len() as int;
    let b = usage_part1(l).len() as int;
    assert(u.subrange(a, a + o) =~= open_file_text(l));
    assert(u.subrange(a + o + b, a + o + b + o) =~= open_file_text(l));
    reveal_strlit("rust-player audio");
    reveal_strlit("rust-player decode");
    reveal_strlit("rust-player render");
    reveal_strlit("rust-player help");
    match l {
        Language::ZhHant => {
            reveal_strlit("）\n  rust-player <檔案> [--no-ui] [--lang]    開啟媒體檔案\n  rust-player audio <檔案> [--progress]    Phase 1：音訊播放\n  rust-player decode <檔案> [--frames N]     Phase 2：視訊解碼\n  rust-player render <檔案>                Phase 3：GPU 渲染\n  rust-player <URL>                        Phase 8：HTTP / HLS 串流\n  rust-player help\n\n語言（--lang）：\n  zh-Hant（預設）· zh-Hans · en · ja\n\n快捷鍵：\n  Space        播放 / 暫停\n  ← / →        快轉 ±10 秒\n  Ctrl+O       ");
            assert(usage_part1(l).subrange(52, 69) =~= "rust-player audio"@);
            lemma_occurs_in_usage_part1(l, "rust-player audio"@, 52);
            assert(usage_part1(l).subrange(106, 124) =~= "rust-player decode"@);
            lemma_occurs_in_usage_part1(l, "rust-player decode"@, 106);
            assert(usage_part1(l).subrange(162, 180) =~= "rust-player render"@);
            lemma_occurs_in_usage_part1(l, "rust-player render"@, 162);
            assert(usage_part1(l).subrange(283, 299) =~= "rust-player help"@);
            lemma_occurs_in_usage_part1(l, "rust-player help"@, 283);
        },
        Language::ZhHans => {
            reveal_strlit("）\n  rust-player <文件> [--no-ui] [--lang]    打开媒体文件\n  rust-player audio <文件> [--progress]    Phase 1：音频播放\n  rust-player decode <文件> [--frames N]     Phase 2：视频解码\n  rust-player render <文件>                Phase 3：GPU 渲染\n  rust-player help\n\n语言（--lang）：\n  zh-Hant · zh-Hans（默认繁体可用 zh-Hant）· en · ja\n\n快捷键：\n  Space        播放 / 暂停\n  ← / →        快进 ±10 秒\n  Ctrl+O       ");
            assert(usage_part1(l).subrange(52, 69) =~= "rust-player audio"@);
            lemma_occurs_in_usage_part1(l, "rust-player audio"@, 52);
            assert(usage_part1(l).subrange(106, 124) =~= "rust-player decode"@);
            lemma_occurs_in_usage_part1(l, "rust-player decode"@, 106);
            assert(usage_part1(l).subrange(162, 180) =~= "rust-player render"@);
            lemma_occurs_in_usage_part1(l, "rust-player render"@, 162);
            assert(usage_part1(l).subrange(218, 234) =~= "rust-player help"@);
            lemma_occurs_in_usage_part1(l, "rust-player help"@, 218);
        },
        Language::En => {
            reveal_strlit(")\n  rust-player <file> [--no-ui] [--lang]     Open media file\n  rust-player audio <file> [--progress]     Phase 1: audio playback\n  rust-player decode <file> [--frames N]    Phase 2: video decode\n  rust-player render <file>                 Phase 3: GPU render\n  rust-player help\n\nLanguages (--lang):\n  zh-Hant (default) · zh-Hans · en · ja\n\nShortcuts:\n  Space        Play / Pause\n  ← / →        Seek ±10s\n  Ctrl+O       ");
            assert(usage_part1(l).subrange(64, 81) =~= "rust-player audio"@);
            lemma_occurs_in_usage_part1(l, "rust-player audio"@, 64);
            assert(usage_part1(l).subrange(132, 150) =~= "rust-player decode"@);
            lemma_occurs_in_usage_part1(l, "rust-player decode"@, 132);
            assert(usage_part1(l).subrange(198, 216) =~= "rust-player render"@);
            lemma_occurs_in_usage_part1(l, "rust-player render"@, 198);
            assert(usage_part1(l).subrange(262, 278) =~= "rust-player help"@);
            lemma_occurs_in_usage_part1(l, "rust-player help"@, 262);
        },
        Language::Ja => {
            reveal_strlit("）\n  rust-player <ファイル> [--no-ui] [--lang]  メディアを開く\n  rust-player audio <ファイル> [--progress]  Phase 1：音声再生\n  rust-player decode <ファイル> [--frames N] Phase 2：動画デコード\n  rust-player render <ファイル>              Phase 3：GPU レンダリング\n  rust-player help\n\n言語（--lang）：\n  zh-Hant（既定）· zh-Hans · en · ja\n\nショートカット：\n  Space        再生 / 一時停止\n  ← / →        ±10 秒シーク\n  Ctrl+O       ");
            assert(usage_part1(l).subrange(53, 70) =~= "rust-player audio"@);
            lemma_occurs_in_usage_part1(l, "rust-player audio"@, 53);
            assert(usage_part1(l).subrange(107, 125) =~= "rust-player decode"@);
            lemma_occurs_in_usage_part1(l, "rust-player decode"@, 107);
            assert(usage_part1(l).subrange(163, 181) =~= "rust-player render"@);
            lemma_occurs_in_usage_part1(l, "rust-player render"@, 163);
            assert(usage_part1(l).subrange(223, 239) =~= "rust-player help"@);
            lemma_occurs_in_usage_part1(l, "rust-player help"@, 223);
        },
    }
}

/// Chinese tags: the Simplified script is chosen by `zh-hans` and by the
/// mainland China and Singapore regions (`zh-cn`, `zh-sg`) and by nothing
/// else; the Traditional script by `zh-hant`, the Taiwan, Hong Kong and Macau
/// regions (`zh-tw`, `zh-hk`, `zh-mo`, `zh-hk-tw`) and by plain `zh`.
pub proof fn law_chinese_tags_choose_script(t: Seq<char>)
    ensures
        language_of_tag(t) == Some(Language::ZhHans) <==> (t == "zh-hans"@ || t == "zh-cn"@ || t == "zh-sg"@),
        (t == "zh-hant"@ || t == "zh-tw"@ || t == "zh-hk"@ || t == "zh-mo"@ || t == "zh-hk-tw"@ || t == "zh"@)
            ==> language_of_tag(t) == Some(Language::ZhHant),
{
    reveal_strlit("zh-hant");
    reveal_strlit("zh-tw");
    reveal_strlit("zh-hk");
    reveal_strlit("zh-mo");
    reveal_strlit("zh-hk-tw");
    reveal_strlit("zh-hans");
    reveal_strlit("zh-cn");
    reveal_strlit("zh-sg");
    reveal_strlit("zh");
    if t == "zh-hans"@ {
        assert(t[6] != "zh-hant"@[6]);
        assert(t.len() != "zh-tw"@.len() && t.len() != "zh-hk-tw"@.len());
    } else if t == "zh-cn"@ || t == "zh-sg"@ {
        assert(t[3] != "zh-tw"@[3] && t[3] != "zh-hk"@[3] && t[3] != "zh-mo"@[3]);
        assert(t.len() != "zh-hant"@.len() && t.len() != "zh-hk-tw"@.len());
    } else if t == "zh"@ {
        assert(t.len() != "zh-hans"@.len() && t.len() != "zh-cn"@.len() && t.len() != "zh-sg"@.len());
    }
}

/// English is chosen by `en`, `en-us` and `en-gb`, Japanese by `ja` and
/// `ja-jp`, and by nothing else; any tag outside the listed ones chooses no
/// language.
pub proof fn law_other_tags_choose_language(t: Seq<char>)
    ensures
        language_of_tag(t) == Some(Language::En) <==> (t == "en"@ || t == "en-us"@ || t == "en-gb"@),
        language_of_tag(t) == Some(Language::Ja) <==> (t == "ja"@ || t == "ja-jp"@),
        language_of_tag(t) is None <==> !(t == "zh-hant"@ || t == "zh-tw"@ || t == "zh-hk"@ || t == "zh-mo"@
            || t == "zh-hk-tw"@ || t == "zh-hans"@ || t == "zh-cn"@ || t == "zh-sg"@ || t == "zh"@ || t == "en"@
            || t == "en-us"@ || t == "en-gb"@ || t == "ja"@ || t == "ja-jp"@),
{
    reveal_strlit("zh-hant");
    reveal_strlit("zh-tw");
    reveal_strlit("zh-hk");
    reveal_strlit("zh-mo");
    reveal_strlit("zh-hk-tw");
    reveal_strlit("zh-hans");
    reveal_strlit("zh-cn");
    reveal_strlit("zh-sg");
    reveal_strlit("zh");
    reveal_strlit("en");
    reveal_strlit("en-us");
    reveal_strlit("en-gb");
    reveal_strlit("ja");
    reveal_strlit("ja-jp");
    if t == "en"@ || t == "en-us"@ || t == "en-gb"@ || t == "ja"@ || t == "ja-jp"@ {
        assert(t[0] != "zh"@[0]);
        assert(t[0] != "zh-hant"@[0] && t[0] != "zh-tw"@[0] && t[0] != "zh-hk-tw"@[0]);
        assert(t[0] != "zh-hans"@[0]);
    }
    if t == "ja"@ || t == "ja-jp"@ {
        assert(t[0] != "en"@[0]);
    }
}

} // verus!
