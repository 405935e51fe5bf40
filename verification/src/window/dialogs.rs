//! Questions and answers in message boxes.

use vstd::prelude::*;

use crate::text::{join2, join3};

verus! {

/// How a message box looks.
#[derive(Debug, Clone, Copy, PartialEq, Eq, Structural)]
pub enum BoxKind {
    Error,
    Information,
    /// Answered by yes or no.
    Question,
}

/// A message box.
#[derive(Debug)]
pub struct MessageBox {
    pub title: String,
    pub text: String,
    pub kind: BoxKind,
}

/// What is known of the newest version.
pub struct UpdateInfo {
    pub current_version: String,
    pub latest_version: String,
    pub is_newer: bool,
}

/// The box shows these texts.
pub open spec fn shows(b: MessageBox, title: Seq<char>, text: Seq<char>, kind: BoxKind) -> bool {
    b.title@ == title && b.text@ == text && b.kind == kind
}

/// What follows the look for a newer version: an error, the news that there is
/// none, or the question whether to update.
pub fn check_for_update(result: &Result<UpdateInfo, String>) -> (r: MessageBox)
    ensures
        match result {
            Err(e) => shows(
                r,
                "アップデート確認"@,
                "更新の確認に失敗しました:\n"@ + e@,
                BoxKind::Error,
            ),
            Ok(info) => if info.is_newer {
                shows(
                    r,
                    "アップデート確認"@,
                    "v"@ + info.latest_version@ + " が利用可能です (現在: v"@ + (
                    info.current_version@ + ")。\n更新しますか？"@),
                    BoxKind::Question,
                )
            } else {
                shows(
                    r,
                    "アップデート確認"@,
                    "最新バージョンです (v"@ + info.current_version@ + ")"@,
                    BoxKind::Information,
                )
            },
        },
{
    let title = "アップデート確認".to_owned();
    match result {
        Err(e) => MessageBox {
            title,
            text: join2("更新の確認に失敗しました:\n", e.as_str()),
            kind: BoxKind::Error,
        },
        Ok(info) => if info.is_newer {
            let head = join3("v", info.latest_version.as_str(), " が利用可能です (現在: v");
            let tail = join2(info.current_version.as_str(), ")。\n更新しますか？");
            MessageBox {
                title,
                text: join2(head.as_str(), tail.as_str()),
                kind: BoxKind::Question,
            }
        } else {
            MessageBox {
                title,
                text: join3("最新バージョンです (v", info.current_version.as_str(), ")"),
                kind: BoxKind::Information,
            }
        },
    }
}

/// What follows an update.
#[derive(Debug)]
pub enum UpdateOutcome {
    /// The program ends, so that it can be replaced.
    Exit,
    Stay,
    Failed(MessageBox),
}

/// What follows an update: the end of the program where it was started, and a
/// message where it failed.
pub fn after_update(result: &Result<bool, String>) -> (r: UpdateOutcome)
    ensures
        match result {
            Ok(true) => r is Exit,
            Ok(false) => r is Stay,
            Err(e) => r matches UpdateOutcome::Failed(b) && shows(
                b,
                "アップデート"@,
                "更新に失敗しました:\n"@ + e@,
                BoxKind::Error,
            ),
        },
{
    match result {
        Ok(started) => if *started {
            UpdateOutcome::Exit
        } else {
            UpdateOutcome::Stay
        },
        Err(e) => UpdateOutcome::Failed(
            MessageBox {
                title: "アップデート".to_owned(),
                text: join2("更新に失敗しました:\n", e.as_str()),
                kind: BoxKind::Error,
            },
        ),
    }
}

/// The question before the program is registered with the shell, or that is
/// undone.
pub fn shell_question(register: bool) -> (r: MessageBox)
    ensures
        shows(
            r,
            "シェル統合"@,
            if register {
                "ファイル関連付け・コンテキストメニュー・「送る」を登録しますか？"@
            } else {
                "ファイル関連付け・コンテキストメニュー・「送る」を解除しますか？"@
            },
            BoxKind::Question,
        ),
{
    let text = if register {
        "ファイル関連付け・コンテキストメニュー・「送る」を登録しますか？"
    } else {
        "ファイル関連付け・コンテキストメニュー・「送る」を解除しますか？"
    };
    MessageBox {
        title: "シェル統合".to_owned(),
        text: text.to_owned(),
        kind: BoxKind::Question,
    }
}

/// What is said after the program was registered with the shell, or that was
/// undone.
pub fn shell_outcome(register: bool, result: &Result<(), String>) -> (r: MessageBox)
    ensures
        match result {
            Ok(_) => shows(
                r,
                "シェル統合"@,
                if register {
                    "シェル統合を登録しました。"@
                } else {
                    "シェル統合を解除しました。"@
                },
                BoxKind::Information,
            ),
            Err(e) => shows(
                r,
                "シェル統合"@,
                (if register {
                    "シェル統合の登録に失敗しました:\n"@
                } else {
                    "シェル統合の解除に失敗しました:\n"@
                }) + e@,
                BoxKind::Error,
            ),
        },
{
    let title = "シェル統合".to_owned();
    match result {
        Ok(_) => {
            let text = if register {
                "シェル統合を登録しました。"
            } else {
                "シェル統合を解除しました。"
            };
            MessageBox { title, text: text.to_owned(), kind: BoxKind::Information }
        },
        Err(e) => {
            let head = if register {
                "シェル統合の登録に失敗しました:\n"
            } else {
                "シェル統合の解除に失敗しました:\n"
            };
            MessageBox { title, text: join2(head, e.as_str()), kind: BoxKind::Error }
        },
    }
}

} // verus!
