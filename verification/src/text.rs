//! Every word the app says to a person, in each language it says it in.
//!
//! One function per message, each a `match` on the language and nothing else, so a message
//! exists in both languages or the crate does not build. Each contract spells the message
//! out, so what a person reads is stated here once and checked everywhere it is used.
//!
//! Not here: the diagnostic reasons in `state`, which are English in every language, and
//! names that are not words in any language (the notification title, the settings keys).

use vstd::prelude::*;

use crate::chars::str_eq;
use crate::numfmt::{decimal, push_decimal};

verus! {

/// The languages the interface speaks.
#[derive(PartialEq, Eq, Clone, Copy, Debug, Structural)]
pub enum Lang {
    Ja,
    En,
}

/// The spelling of a language in `settings.conf`.
pub open spec fn lang_name(lang: Lang) -> Seq<char> {
    match lang {
        Lang::Ja => "ja"@,
        Lang::En => "en"@,
    }
}

/// The language a `settings.conf` spelling names, if any.
pub open spec fn parse_lang_name(name: Seq<char>) -> Option<Lang> {
    if name == lang_name(Lang::Ja) {
        Some(Lang::Ja)
    } else if name == lang_name(Lang::En) {
        Some(Lang::En)
    } else {
        None
    }
}

impl Lang {
    /// Which language a Windows UI language id names. The low ten bits are the primary
    /// language and `0x11` is Japanese; English answers for every language not spoken here,
    /// because a tray icon has to say something.
    pub fn from_windows(langid: u16) -> (lang: Lang)
        ensures
            lang == (if langid % 1024 == 0x11 { Lang::Ja } else { Lang::En }),
    {
        if langid % 1024 == 0x11 {
            Lang::Ja
        } else {
            Lang::En
        }
    }

    /// The spelling used in `settings.conf`, and what `language=` accepts there.
    pub fn parse(name: &str) -> (lang: Option<Lang>)
        ensures
            lang == parse_lang_name(name@),
    {
        if str_eq(name, "ja") {
            Some(Lang::Ja)
        } else if str_eq(name, "en") {
            Some(Lang::En)
        } else {
            None
        }
    }

    pub fn as_str(self) -> (s: &'static str)
        ensures
            s@ == lang_name(self),
    {
        match self {
            Lang::Ja => "ja",
            Lang::En => "en",
        }
    }
}

/// Each language's name reads back as that language.
pub proof fn lemma_lang_name_round_trip(lang: Lang)
    ensures
        parse_lang_name(lang_name(lang)) == Some(lang),
{
    reveal_strlit("ja");
    reveal_strlit("en");
    assert(lang_name(Lang::Ja)[0] != lang_name(Lang::En)[0]);
}

pub open spec fn bluetooth_connected_text(lang: Lang) -> Seq<char> {
    match lang {
        Lang::Ja => "Bluetooth 接続済み"@,
        Lang::En => "Bluetooth connected"@,
    }
}

pub fn bluetooth_connected(lang: Lang) -> (s: &'static str)
    ensures
        s@ == bluetooth_connected_text(lang),
{
    match lang {
        Lang::Ja => "Bluetooth 接続済み",
        Lang::En => "Bluetooth connected",
    }
}

pub open spec fn bluetooth_pairing_text(lang: Lang) -> Seq<char> {
    match lang {
        Lang::Ja => "Bluetooth ペアリング中"@,
        Lang::En => "Bluetooth pairing"@,
    }
}

pub fn bluetooth_pairing(lang: Lang) -> (s: &'static str)
    ensures
        s@ == bluetooth_pairing_text(lang),
{
    match lang {
        Lang::Ja => "Bluetooth ペアリング中",
        Lang::En => "Bluetooth pairing",
    }
}

pub open spec fn bluetooth_unconnected_text(lang: Lang) -> Seq<char> {
    match lang {
        Lang::Ja => "Bluetooth オン（未接続）"@,
        Lang::En => "Bluetooth on, not connected"@,
    }
}

pub fn bluetooth_unconnected(lang: Lang) -> (s: &'static str)
    ensures
        s@ == bluetooth_unconnected_text(lang),
{
    match lang {
        Lang::Ja => "Bluetooth オン（未接続）",
        Lang::En => "Bluetooth on, not connected",
    }
}

pub open spec fn bluetooth_off_text(lang: Lang) -> Seq<char> {
    match lang {
        Lang::Ja => "Bluetooth オフ"@,
        Lang::En => "Bluetooth off"@,
    }
}

pub fn bluetooth_off(lang: Lang) -> (s: &'static str)
    ensures
        s@ == bluetooth_off_text(lang),
{
    match lang {
        Lang::Ja => "Bluetooth オフ",
        Lang::En => "Bluetooth off",
    }
}

pub open spec fn settings_file_header_text(lang: Lang) -> Seq<char> {
    match lang {
        Lang::Ja => "# inzone-h9-gen1-headset-status の設定です。消すと既定に戻ります。language は auto か ja か en です。"@,
        Lang::En => "# inzone-h9-gen1-headset-status settings. Delete the file to reset. language is auto, ja or en."@,
    }
}

/// The header written into `settings.conf`. The keys below it are ASCII because they are a
/// format, but the line explaining them is read by whoever opened the file.
///
/// It names what `language` accepts, because `auto` is the only value they will see there
/// and it gives away none of the others. The on/off keys need no such help: their two
/// values are the two words already written next to them.
pub fn settings_file_header(lang: Lang) -> (s: &'static str)
    ensures
        s@ == settings_file_header_text(lang),
{
    match lang {
        Lang::Ja => "# inzone-h9-gen1-headset-status の設定です。消すと既定に戻ります。language は auto か ja か en です。",
        Lang::En => "# inzone-h9-gen1-headset-status settings. Delete the file to reset. language is auto, ja or en.",
    }
}

pub fn notify_test(lang: Lang) -> (s: &'static str)
    ensures
        s@ == match lang {
            Lang::Ja => "通知の動作確認です"@,
            Lang::En => "This is a test notification"@,
        },
{
    match lang {
        Lang::Ja => "通知の動作確認です",
        Lang::En => "This is a test notification",
    }
}

pub fn notify_startup_failed(lang: Lang) -> (s: &'static str)
    ensures
        s@ == match lang {
            Lang::Ja => "自動起動の設定を変更できませんでした"@,
            Lang::En => "Could not change the startup setting"@,
        },
{
    match lang {
        Lang::Ja => "自動起動の設定を変更できませんでした",
        Lang::En => "Could not change the startup setting",
    }
}

pub fn notify_browser_failed(lang: Lang) -> (s: &'static str)
    ensures
        s@ == match lang {
            Lang::Ja => "ブラウザを開けませんでした"@,
            Lang::En => "Could not open the browser"@,
        },
{
    match lang {
        Lang::Ja => "ブラウザを開けませんでした",
        Lang::En => "Could not open the browser",
    }
}

pub fn notify_settings_unsaved(lang: Lang) -> (s: &'static str)
    ensures
        s@ == match lang {
            Lang::Ja => "設定を保存できませんでした（この起動中だけ有効です）"@,
            Lang::En => "Could not save the settings (they hold for this session only)"@,
        },
{
    match lang {
        Lang::Ja => "設定を保存できませんでした（この起動中だけ有効です）",
        Lang::En => "Could not save the settings (they hold for this session only)",
    }
}

pub fn menu_starting(lang: Lang) -> (s: &'static str)
    ensures
        s@ == match lang {
            Lang::Ja => "状態を取得中…"@,
            Lang::En => "Reading the state…"@,
        },
{
    match lang {
        Lang::Ja => "状態を取得中…",
        Lang::En => "Reading the state…",
    }
}

pub fn menu_notify_power(lang: Lang) -> (s: &'static str)
    ensures
        s@ == match lang {
            Lang::Ja => "ヘッドセットのオン/オフ通知"@,
            Lang::En => "Headset on/off notifications"@,
        },
{
    match lang {
        Lang::Ja => "ヘッドセットのオン/オフ通知",
        Lang::En => "Headset on/off notifications",
    }
}

pub fn menu_notify_battery(lang: Lang) -> (s: &'static str)
    ensures
        s@ == match lang {
            Lang::Ja => "バッテリー低下の通知"@,
            Lang::En => "Low battery notifications"@,
        },
{
    match lang {
        Lang::Ja => "バッテリー低下の通知",
        Lang::En => "Low battery notifications",
    }
}

pub fn menu_run_at_logon(lang: Lang) -> (s: &'static str)
    ensures
        s@ == match lang {
            Lang::Ja => "Windows 起動時に開始"@,
            Lang::En => "Start with Windows"@,
        },
{
    match lang {
        Lang::Ja => "Windows 起動時に開始",
        Lang::En => "Start with Windows",
    }
}

/// Names the page as well as the errand. "Check for updates" alone reads as something the
/// app goes and does, and it does not: it opens a page and the reader compares the number
/// against the version line above it.
pub fn menu_check_for_updates(lang: Lang) -> (s: &'static str)
    ensures
        s@ == match lang {
            Lang::Ja => "更新を確認（リリースページ）"@,
            Lang::En => "Check for updates (releases page)"@,
        },
{
    match lang {
        Lang::Ja => "更新を確認（リリースページ）",
        Lang::En => "Check for updates (releases page)",
    }
}

pub fn menu_quit(lang: Lang) -> (s: &'static str)
    ensures
        s@ == match lang {
            Lang::Ja => "終了"@,
            Lang::En => "Quit"@,
        },
{
    match lang {
        Lang::Ja => "終了",
        Lang::En => "Quit",
    }
}

pub fn already_running(lang: Lang) -> (s: &'static str)
    ensures
        s@ == match lang {
            Lang::Ja => "inzone-h9-gen1-headset-status はすでに起動しています。タスクトレイを確認してください。"@,
            Lang::En => "inzone-h9-gen1-headset-status is already running. Look in the notification area."@,
        },
{
    match lang {
        Lang::Ja => "inzone-h9-gen1-headset-status はすでに起動しています。タスクトレイを確認してください。",
        Lang::En => "inzone-h9-gen1-headset-status is already running. Look in the notification area.",
    }
}

pub open spec fn tip_off_text(lang: Lang) -> Seq<char> {
    match lang {
        Lang::Ja => "INZONE: ヘッドセット電源オフ"@,
        Lang::En => "INZONE: headset off"@,
    }
}

pub fn tip_off(lang: Lang) -> (s: String)
    ensures
        s@ == tip_off_text(lang),
{
    match lang {
        Lang::Ja => String::from_str("INZONE: ヘッドセット電源オフ"),
        Lang::En => String::from_str("INZONE: headset off"),
    }
}

pub open spec fn tip_pairing_text(lang: Lang) -> Seq<char> {
    match lang {
        Lang::Ja => "INZONE: ペアリング中"@,
        Lang::En => "INZONE: pairing"@,
    }
}

pub fn tip_pairing(lang: Lang) -> (s: String)
    ensures
        s@ == tip_pairing_text(lang),
{
    match lang {
        Lang::Ja => String::from_str("INZONE: ペアリング中"),
        Lang::En => String::from_str("INZONE: pairing"),
    }
}

pub open spec fn tip_hub_busy_text(lang: Lang) -> Seq<char> {
    match lang {
        Lang::Ja => "INZONE: ポートが使用中（INZONE Hub を閉じると復帰します）"@,
        Lang::En => "INZONE: port in use (close INZONE Hub to resume)"@,
    }
}

pub fn tip_hub_busy(lang: Lang) -> (s: String)
    ensures
        s@ == tip_hub_busy_text(lang),
{
    match lang {
        Lang::Ja => String::from_str("INZONE: ポートが使用中（INZONE Hub を閉じると復帰します）"),
        Lang::En => String::from_str("INZONE: port in use (close INZONE Hub to resume)"),
    }
}

pub open spec fn tip_starting_text(lang: Lang) -> Seq<char> {
    match lang {
        Lang::Ja => "INZONE: 状態を取得中…"@,
        Lang::En => "INZONE: reading the state…"@,
    }
}

pub fn tip_starting(lang: Lang) -> (s: String)
    ensures
        s@ == tip_starting_text(lang),
{
    match lang {
        Lang::Ja => String::from_str("INZONE: 状態を取得中…"),
        Lang::En => String::from_str("INZONE: reading the state…"),
    }
}

pub open spec fn notify_on_text(lang: Lang) -> Seq<char> {
    match lang {
        Lang::Ja => "ヘッドセットがオンになりました"@,
        Lang::En => "Headset switched on"@,
    }
}

pub fn notify_on(lang: Lang) -> (s: String)
    ensures
        s@ == notify_on_text(lang),
{
    match lang {
        Lang::Ja => String::from_str("ヘッドセットがオンになりました"),
        Lang::En => String::from_str("Headset switched on"),
    }
}

pub open spec fn notify_pairing_text(lang: Lang) -> Seq<char> {
    match lang {
        Lang::Ja => "ヘッドセットがペアリングを開始しました"@,
        Lang::En => "Headset started pairing"@,
    }
}

pub fn notify_pairing(lang: Lang) -> (s: String)
    ensures
        s@ == notify_pairing_text(lang),
{
    match lang {
        Lang::Ja => String::from_str("ヘッドセットがペアリングを開始しました"),
        Lang::En => String::from_str("Headset started pairing"),
    }
}

pub open spec fn notify_off_text(lang: Lang) -> Seq<char> {
    match lang {
        Lang::Ja => "ヘッドセットがオフになりました"@,
        Lang::En => "Headset switched off"@,
    }
}

pub fn notify_off(lang: Lang) -> (s: String)
    ensures
        s@ == notify_off_text(lang),
{
    match lang {
        Lang::Ja => String::from_str("ヘッドセットがオフになりました"),
        Lang::En => String::from_str("Headset switched off"),
    }
}

/// The power half of the on-tooltip: the level and whether the pack is charging.
pub open spec fn power_text(lang: Lang, battery: Option<u8>, charging: bool) -> Seq<char> {
    match (lang, battery, charging) {
        (Lang::Ja, Some(b), true) => "オン（充電中 "@ + decimal(b as nat) + "%）"@,
        (Lang::En, Some(b), true) => "On (charging, "@ + decimal(b as nat) + "%)"@,
        (Lang::Ja, Some(b), false) => "オン（バッテリー "@ + decimal(b as nat) + "%）"@,
        (Lang::En, Some(b), false) => "On (battery "@ + decimal(b as nat) + "%)"@,
        (Lang::Ja, None, true) => "オン（充電中）"@,
        (Lang::En, None, true) => "On (charging)"@,
        (Lang::Ja, None, false) => "オン"@,
        (Lang::En, None, false) => "On"@,
    }
}

/// The powered-on tooltip: the tag, the power half, and the Bluetooth clause joined by the
/// language's own separator when there is one.
pub open spec fn tip_on_text(lang: Lang, battery: Option<u8>, charging: bool, bluetooth: Option<Seq<char>>) -> Seq<char> {
    match (lang, bluetooth) {
        (_, None) => "INZONE: "@ + power_text(lang, battery, charging),
        (Lang::Ja, Some(bt)) => "INZONE: "@ + power_text(lang, battery, charging) + "、"@ + bt,
        (Lang::En, Some(bt)) => "INZONE: "@ + power_text(lang, battery, charging) + ", "@ + bt,
    }
}

/// The powered-on tooltip, assembled from the level and the Bluetooth side so the pieces
/// can be ordered differently in a language that wants them differently.
pub fn tip_on(lang: Lang, battery: Option<u8>, charging: bool, bluetooth: Option<&str>) -> (s: String)
    ensures
        s@ == tip_on_text(
            lang,
            battery,
            charging,
            match bluetooth {
                Some(bt) => Some(bt@),
                None => None,
            },
        ),
{
    let mut s = String::from_str("INZONE: ");
    match (lang, battery, charging) {
        (Lang::Ja, Some(b), true) => {
            s.append("オン（充電中 ");
            push_decimal(&mut s, b as u64);
            s.append("%）");
        },
        (Lang::En, Some(b), true) => {
            s.append("On (charging, ");
            push_decimal(&mut s, b as u64);
            s.append("%)");
        },
        (Lang::Ja, Some(b), false) => {
            s.append("オン（バッテリー ");
            push_decimal(&mut s, b as u64);
            s.append("%）");
        },
        (Lang::En, Some(b), false) => {
            s.append("On (battery ");
            push_decimal(&mut s, b as u64);
            s.append("%)");
        },
        (Lang::Ja, None, true) => s.append("オン（充電中）"),
        (Lang::En, None, true) => s.append("On (charging)"),
        (Lang::Ja, None, false) => s.append("オン"),
        (Lang::En, None, false) => s.append("On"),
    }
    match (lang, bluetooth) {
        (_, None) => {},
        (Lang::Ja, Some(bt)) => {
            s.append("、");
            s.append(bt);
        },
        (Lang::En, Some(bt)) => {
            s.append(", ");
            s.append(bt);
        },
    }
    s
}

/// The no-receiver tooltip. `unidentified` is how many serial ports could not be identified
/// while failing to find the receiver: at zero "not found" is the whole truth; above zero
/// the sentence says the answer may be ours to get wrong.
pub open spec fn tip_no_dongle_text(lang: Lang, unidentified: usize) -> Seq<char> {
    match (lang, unidentified) {
        (Lang::Ja, 0) => "INZONE: レシーバーが見つかりません"@,
        (Lang::Ja, n) => "INZONE: レシーバーが見つかりません（判別できないポートが "@ + decimal(n as nat) + " 個あります）"@,
        (Lang::En, 0) => "INZONE: receiver not found"@,
        (Lang::En, n) => "INZONE: receiver not found (could not identify "@ + decimal(n as nat) + " of the ports)"@,
    }
}

pub fn tip_no_dongle(lang: Lang, unidentified: usize) -> (s: String)
    ensures
        s@ == tip_no_dongle_text(lang, unidentified),
{
    match (lang, unidentified) {
        (Lang::Ja, 0) => String::from_str("INZONE: レシーバーが見つかりません"),
        (Lang::Ja, n) => {
            let mut s = String::from_str("INZONE: レシーバーが見つかりません（判別できないポートが ");
            push_decimal(&mut s, n as u64);
            s.append(" 個あります）");
            s
        },
        (Lang::En, 0) => String::from_str("INZONE: receiver not found"),
        (Lang::En, n) => {
            let mut s = String::from_str("INZONE: receiver not found (could not identify ");
            push_decimal(&mut s, n as u64);
            s.append(" of the ports)");
            s
        },
    }
}

/// The error tooltip. `reason` is diagnostic and English whatever the language; only the
/// sentence around it is translated.
pub open spec fn tip_error_text(lang: Lang, reason: Seq<char>) -> Seq<char> {
    match lang {
        Lang::Ja => "INZONE: エラー（"@ + reason + "）"@,
        Lang::En => "INZONE: error ("@ + reason + ")"@,
    }
}

pub fn tip_error(lang: Lang, reason: &str) -> (s: String)
    ensures
        s@ == tip_error_text(lang, reason@),
{
    match lang {
        Lang::Ja => {
            let mut s = String::from_str("INZONE: エラー（");
            s.append(reason);
            s.append("）");
            s
        },
        Lang::En => {
            let mut s = String::from_str("INZONE: error (");
            s.append(reason);
            s.append(")");
            s
        },
    }
}

pub open spec fn notify_on_with_battery_text(lang: Lang, battery: u8) -> Seq<char> {
    match lang {
        Lang::Ja => "ヘッドセットがオンになりました（バッテリー "@ + decimal(battery as nat) + "%）"@,
        Lang::En => "Headset switched on (battery "@ + decimal(battery as nat) + "%)"@,
    }
}

pub fn notify_on_with_battery(lang: Lang, battery: u8) -> (s: String)
    ensures
        s@ == notify_on_with_battery_text(lang, battery),
{
    match lang {
        Lang::Ja => {
            let mut s = String::from_str("ヘッドセットがオンになりました（バッテリー ");
            push_decimal(&mut s, battery as u64);
            s.append("%）");
            s
        },
        Lang::En => {
            let mut s = String::from_str("Headset switched on (battery ");
            push_decimal(&mut s, battery as u64);
            s.append("%)");
            s
        },
    }
}

pub open spec fn notify_battery_critical_text(lang: Lang, level: u8) -> Seq<char> {
    match lang {
        Lang::Ja => "バッテリー残量がわずかです（"@ + decimal(level as nat) + "%）"@,
        Lang::En => "Battery is nearly empty ("@ + decimal(level as nat) + "%)"@,
    }
}

pub fn notify_battery_critical(lang: Lang, level: u8) -> (s: String)
    ensures
        s@ == notify_battery_critical_text(lang, level),
{
    match lang {
        Lang::Ja => {
            let mut s = String::from_str("バッテリー残量がわずかです（");
            push_decimal(&mut s, level as u64);
            s.append("%）");
            s
        },
        Lang::En => {
            let mut s = String::from_str("Battery is nearly empty (");
            push_decimal(&mut s, level as u64);
            s.append("%)");
            s
        },
    }
}

pub open spec fn notify_battery_low_text(lang: Lang, level: u8) -> Seq<char> {
    match lang {
        Lang::Ja => "バッテリーが残り "@ + decimal(level as nat) + "% です"@,
        Lang::En => "Battery is down to "@ + decimal(level as nat) + "%"@,
    }
}

pub fn notify_battery_low(lang: Lang, level: u8) -> (s: String)
    ensures
        s@ == notify_battery_low_text(lang, level),
{
    match lang {
        Lang::Ja => {
            let mut s = String::from_str("バッテリーが残り ");
            push_decimal(&mut s, level as u64);
            s.append("% です");
            s
        },
        Lang::En => {
            let mut s = String::from_str("Battery is down to ");
            push_decimal(&mut s, level as u64);
            s.append("%");
            s
        },
    }
}

pub fn unknown_option(lang: Lang, option: &str) -> (s: String)
    ensures
        s@ == match lang {
            Lang::Ja => "不明なオプション: "@ + option@,
            Lang::En => "unknown option: "@ + option@,
        },
{
    match lang {
        Lang::Ja => {
            let mut s = String::from_str("不明なオプション: ");
            s.append(option);
            s
        },
        Lang::En => {
            let mut s = String::from_str("unknown option: ");
            s.append(option);
            s
        },
    }
}

pub open spec fn help_text(lang: Lang) -> Seq<char> {
    match lang {
        Lang::Ja => "INZONE H9 / H7（初代）のヘッドセット電源状態をタスクトレイに表示します。

使い方:
  inzone-h9-gen1-headset-status [オプション]

オプション:
  -h, --help       このヘルプを表示して終了
  -V, --version    バージョンを表示して終了
      --test-toast 起動時に通知を 1 回出す（通知経路の確認用）

アイコン:
  緑    ヘッドセットがオン
  黄    オン、バッテリー 35% 以下
  赤    オン、バッテリー 15% 以下
  明るい色 オン、充電中（残量の色を明るくしたもの。満充電で元に戻ります）
  青    ペアリング中
  灰    ヘッドセットの電源がオフ
  紫    COM ポートを INZONE Hub が使用中（リング）
  暗灰  レシーバー未接続、またはエラー（リング）

  円は残量のぶんだけ塗られます（真上から時計回り）。
  右下の青いバッジが Bluetooth で、塗りが接続済み、
  中空がオンで未接続またはペアリング中です。

右クリックメニュー:
  現在の状態、通知の on/off、自動起動の on/off、バージョン、更新の確認が出ます。

  このアプリはネットワークに接続しません。「更新を確認」はリリースページを
  既定のブラウザで開くだけで、新しい版があるかどうかの確認はブラウザ側で行います。

  通知の設定は %APPDATA%\\inzone-h9-gen1-headset-status\\settings.conf に保存され、
  次回の起動でも維持されます。ファイルを消すと既定（どちらも on）に戻ります。

  自動起動は HKCU\\Software\\Microsoft\\Windows\\CurrentVersion\\Run に登録します。
  Windows の設定のアプリ、スタートアップの一覧からも切り替えられます。

終了コード:
  0  正常に終了した
  2  オプションが解釈できなかった
  3  すでに起動していたので何もせず終了した

INZONE Hub が起動しているとポートを握られて状態を読めません。Hub を閉じれば
自動で復帰します。EQ などの音響効果は Hub を常駐させなくても効き続けます。"@,
        Lang::En => "Shows the power state of a Sony INZONE H9 / H7 (first generation) headset in the
notification area.

Usage:
  inzone-h9-gen1-headset-status [options]

Options:
  -h, --help       print this help and exit
  -V, --version    print the version and exit
      --test-toast fire one notification at startup, to check that path

Icon:
  green   headset is on
  amber   on, battery at 35% or below
  red     on, battery at 15% or below
  pale    on and charging: the band color, lightened. Back to plain when full.
  blue    pairing
  gray    headset is off
  violet  INZONE Hub is holding the COM port (ring)
  dim     no receiver, or an error (ring)

  The disc fills with what charge is left, clockwise from the top.
  The blue badge in the corner is Bluetooth: filled is connected, hollow is on
  but not connected, or pairing.

Context menu:
  The current state, the notification switches, the startup switch, the version,
  and a way to check for updates.

  This app never connects to the network. The updates item opens the releases page
  in your browser, and it is the browser that goes and looks.

  The notification settings are kept in
  %APPDATA%\\inzone-h9-gen1-headset-status\\settings.conf and survive a restart. Delete the
  file to go back to the defaults, which are both on.

  language=auto|ja|en in that file picks the interface language. auto follows
  Windows. A change takes effect at the next start.

  Startup registers under HKCU\\Software\\Microsoft\\Windows\\CurrentVersion\\Run,
  so Settings > Apps > Startup can switch it off as well.

Exit codes:
  0  finished normally
  2  the command line could not be understood
  3  another instance was already running, so this one did nothing

While INZONE Hub is running it holds the port and the state cannot be read. Closing
the Hub is enough; this recovers on its own. The equalizer and the other audio
effects keep working with the Hub closed."@,
    }
}

/// The `--help` text.
pub fn help(lang: Lang) -> (s: &'static str)
    ensures
        s@ == help_text(lang),
{
    match lang {
        Lang::Ja => "INZONE H9 / H7（初代）のヘッドセット電源状態をタスクトレイに表示します。

使い方:
  inzone-h9-gen1-headset-status [オプション]

オプション:
  -h, --help       このヘルプを表示して終了
  -V, --version    バージョンを表示して終了
      --test-toast 起動時に通知を 1 回出す（通知経路の確認用）

アイコン:
  緑    ヘッドセットがオン
  黄    オン、バッテリー 35% 以下
  赤    オン、バッテリー 15% 以下
  明るい色 オン、充電中（残量の色を明るくしたもの。満充電で元に戻ります）
  青    ペアリング中
  灰    ヘッドセットの電源がオフ
  紫    COM ポートを INZONE Hub が使用中（リング）
  暗灰  レシーバー未接続、またはエラー（リング）

  円は残量のぶんだけ塗られます（真上から時計回り）。
  右下の青いバッジが Bluetooth で、塗りが接続済み、
  中空がオンで未接続またはペアリング中です。

右クリックメニュー:
  現在の状態、通知の on/off、自動起動の on/off、バージョン、更新の確認が出ます。

  このアプリはネットワークに接続しません。「更新を確認」はリリースページを
  既定のブラウザで開くだけで、新しい版があるかどうかの確認はブラウザ側で行います。

  通知の設定は %APPDATA%\\inzone-h9-gen1-headset-status\\settings.conf に保存され、
  次回の起動でも維持されます。ファイルを消すと既定（どちらも on）に戻ります。

  自動起動は HKCU\\Software\\Microsoft\\Windows\\CurrentVersion\\Run に登録します。
  Windows の設定のアプリ、スタートアップの一覧からも切り替えられます。

終了コード:
  0  正常に終了した
  2  オプションが解釈できなかった
  3  すでに起動していたので何もせず終了した

INZONE Hub が起動しているとポートを握られて状態を読めません。Hub を閉じれば
自動で復帰します。EQ などの音響効果は Hub を常駐させなくても効き続けます。",
        Lang::En => "Shows the power state of a Sony INZONE H9 / H7 (first generation) headset in the
notification area.

Usage:
  inzone-h9-gen1-headset-status [options]

Options:
  -h, --help       print this help and exit
  -V, --version    print the version and exit
      --test-toast fire one notification at startup, to check that path

Icon:
  green   headset is on
  amber   on, battery at 35% or below
  red     on, battery at 15% or below
  pale    on and charging: the band color, lightened. Back to plain when full.
  blue    pairing
  gray    headset is off
  violet  INZONE Hub is holding the COM port (ring)
  dim     no receiver, or an error (ring)

  The disc fills with what charge is left, clockwise from the top.
  The blue badge in the corner is Bluetooth: filled is connected, hollow is on
  but not connected, or pairing.

Context menu:
  The current state, the notification switches, the startup switch, the version,
  and a way to check for updates.

  This app never connects to the network. The updates item opens the releases page
  in your browser, and it is the browser that goes and looks.

  The notification settings are kept in
  %APPDATA%\\inzone-h9-gen1-headset-status\\settings.conf and survive a restart. Delete the
  file to go back to the defaults, which are both on.

  language=auto|ja|en in that file picks the interface language. auto follows
  Windows. A change takes effect at the next start.

  Startup registers under HKCU\\Software\\Microsoft\\Windows\\CurrentVersion\\Run,
  so Settings > Apps > Startup can switch it off as well.

Exit codes:
  0  finished normally
  2  the command line could not be understood
  3  another instance was already running, so this one did nothing

While INZONE Hub is running it holds the port and the state cannot be read. Closing
the Hub is enough; this recovers on its own. The equalizer and the other audio
effects keep working with the Hub closed.",
    }
}

/// The power notifications say something, and say different things: switched on with a
/// level, switched on without one, pairing and switched off never read alike.
pub proof fn lemma_power_notifications_differ(lang: Lang, level: u8)
    ensures
        notify_on_with_battery_text(lang, level).len() > 0,
        notify_on_text(lang).len() > 0,
        notify_pairing_text(lang).len() > 0,
        notify_off_text(lang).len() > 0,
        notify_on_with_battery_text(lang, level) != notify_on_text(lang),
        notify_on_with_battery_text(lang, level) != notify_pairing_text(lang),
        notify_on_with_battery_text(lang, level) != notify_off_text(lang),
        notify_on_text(lang) != notify_pairing_text(lang),
        notify_on_text(lang) != notify_off_text(lang),
        notify_pairing_text(lang) != notify_off_text(lang),
{
    reveal_strlit("ヘッドセットがオンになりました（バッテリー ");
    reveal_strlit("%）");
    reveal_strlit("Headset switched on (battery ");
    reveal_strlit("%)");
    reveal_strlit("ヘッドセットがオンになりました");
    reveal_strlit("Headset switched on");
    reveal_strlit("ヘッドセットがペアリングを開始しました");
    reveal_strlit("Headset started pairing");
    reveal_strlit("ヘッドセットがオフになりました");
    reveal_strlit("Headset switched off");
    let d = decimal(level as nat);
    match lang {
        Lang::Ja => {
            let w = "ヘッドセットがオンになりました（バッテリー "@ + d + "%）"@;
            assert(w[15] == '（');
            assert(w[8] == 'ン');
            assert(w.len() > 15);
            assert("ヘッドセットがオンになりました"@[8] != "ヘッドセットがオフになりました"@[8]);
        },
        Lang::En => {
            let w = "Headset switched on (battery "@ + d + "%)"@;
            assert(w[19] == ' ');
            assert(w[8] == 's');
            assert(w[17] == 'o' && w[18] == 'n');
            assert(w.len() > 19);
        },
    }
}

/// The two battery warnings are different sentences, not one sentence with a different
/// number in it: at any level, the nearly-empty warning never reads as the low one.
pub proof fn lemma_battery_warnings_differ(lang: Lang, level: u8)
    ensures
        notify_battery_critical_text(lang, level) != notify_battery_low_text(lang, level),
{
    reveal_strlit("バッテリー残量がわずかです（");
    reveal_strlit("バッテリーが残り ");
    reveal_strlit("Battery is nearly empty (");
    reveal_strlit("Battery is down to ");
    reveal_strlit("%）");
    reveal_strlit("% です");
    reveal_strlit("%)");
    reveal_strlit("%");
    let d = decimal(level as nat);
    match lang {
        Lang::Ja => {
            let c = "バッテリー残量がわずかです（"@ + d + "%）"@;
            let l = "バッテリーが残り "@ + d + "% です"@;
            assert(c[5] != l[5]);
        },
        Lang::En => {
            let c = "Battery is nearly empty ("@ + d + "%)"@;
            let l = "Battery is down to "@ + d + "%"@;
            assert(c[11] != l[11]);
        },
    }
}

/// The powered-on tooltip always says whether the pack is charging: in either language, at
/// any level or none, with or without a Bluetooth clause, the charging tooltip never reads
/// like the one for a pack that is not charging. In English an unknown level while
/// charging reads "INZONE: On (charging)".
pub proof fn lemma_tooltip_tells_charging(lang: Lang, battery: Option<u8>, bluetooth: Option<Seq<char>>)
    ensures
        tip_on_text(lang, battery, true, bluetooth) != tip_on_text(lang, battery, false, bluetooth),
        tip_on_text(Lang::En, None, true, None) == "INZONE: On (charging)"@,
{
    reveal_strlit("INZONE: ");
    reveal_strlit("INZONE: On (charging)");
    reveal_strlit("オン（充電中 ");
    reveal_strlit("On (charging, ");
    reveal_strlit("オン（バッテリー ");
    reveal_strlit("On (battery ");
    reveal_strlit("オン（充電中）");
    reveal_strlit("On (charging)");
    reveal_strlit("オン");
    reveal_strlit("On");
    reveal_strlit("、");
    reveal_strlit(", ");
    assert("INZONE: "@ + "On (charging)"@ =~= "INZONE: On (charging)"@);
    let t = tip_on_text(lang, battery, true, bluetooth);
    let f = tip_on_text(lang, battery, false, bluetooth);
    let pt = power_text(lang, battery, true);
    let pf = power_text(lang, battery, false);
    assert(t.take(8 + pt.len() as int) =~= "INZONE: "@ + pt);
    assert(f.take(8 + pf.len() as int) =~= "INZONE: "@ + pf);
    match (lang, battery) {
        (Lang::En, Some(b)) => {
            assert(t[12] == 'c' && f[12] == 'b');
        },
        (Lang::Ja, Some(b)) => {
            assert(t[11] == '充' && f[11] == 'バ');
        },
        (Lang::En, None) => {
            match bluetooth {
                None => assert(t.len() != f.len()),
                Some(bt) => assert(t[10] == ' ' && f[10] == ','),
            }
        },
        (Lang::Ja, None) => {
            match bluetooth {
                None => assert(t.len() != f.len()),
                Some(bt) => assert(t[10] == '（' && f[10] == '、'),
            }
        },
    }
}

} // verus!
