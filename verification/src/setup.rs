//! The first-run wizard: which question is asked when, what an answer does to the settings,
//! and when the wizard is done. The wizard decides; its caller prints the questions, reads
//! the answers and looks at the disk.

use crate::settings::{is_valid_url, valid_url, Settings};
use vstd::prelude::*;

verus! {

/// What the wizard asks for.
#[derive(Debug, Clone, Copy, PartialEq, Eq, Structural)]
pub enum Question {
    /// Whether the settings file may be overwritten.
    Overwrite,
    /// The url of the first JSON-RPC endpoint.
    Url1,
    /// The url of the second JSON-RPC endpoint, which `s` skips.
    Url2,
    /// The latency budget of the first endpoint.
    Latency1,
    /// The latency budget of the second endpoint.
    Latency2,
    /// The API key of the block explorer.
    ScanKey,
    /// The API key of the vulnerability scanner.
    MythXKey,
    /// The directory for downloaded contracts.
    FilePath,
}

/// Where the wizard stands.
#[derive(Debug, Clone, Copy, PartialEq, Eq, Structural)]
pub enum Stage {
    /// The answer to this question is wanted next.
    Ask(Question),
    /// Every question is answered, and the settings are complete.
    Done,
    /// The user did not allow the settings file to be overwritten.
    Declined,
}

/// What the user is told after an answer, whether or not the answer was accepted.
#[derive(Debug, Clone, Copy, PartialEq, Eq, Structural)]
pub enum Notice {
    /// A url has to start with `http://` or `https://`.
    UrlInvalid,
    /// A path has to be a directory that can be written to.
    PathInvalid,
}

/// An answer of the user.
#[derive(Debug, Clone, PartialEq, Eq)]
pub enum Answer {
    /// A line of text.
    Text(String),
    /// A number of milliseconds.
    Millis(u32),
    /// A path, and whether it is a directory that can be written to.
    Folder { path: String, writable: bool },
}

/// The wizard: the settings as far as they are filled in, and the stage.
#[derive(Debug, Clone, PartialEq, Eq)]
pub struct Setup {
    pub settings: Settings,
    pub stage: Stage,
}

/// Whether `answer` is `y` or `yes`, in upper or lower case.
pub open spec fn is_yes(answer: Seq<char>) -> bool {
    ||| answer.len() == 1 && (answer[0] == 'y' || answer[0] == 'Y')
    ||| answer.len() == 3 && (answer[0] == 'y' || answer[0] == 'Y') && (answer[1] == 'e'
        || answer[1] == 'E') && (answer[2] == 's' || answer[2] == 'S')
}

/// Whether `url`, given for the second endpoint, asks to go without one.
pub open spec fn is_skip(url: Seq<char>) -> bool {
    url.len() == 1 && url[0] == 's'
}

/// Whether the second endpoint, with the url `url`, needs a latency budget: a url of more
/// than two characters does.
pub open spec fn has_second_endpoint(url: Seq<char>) -> bool {
    url.len() > 2
}

/// The stage after the text `answer` was given to `question`. A question that wants no
/// text is asked again.
pub open spec fn stage_after_text(question: Question, answer: Seq<char>) -> Stage {
    match question {
        Question::Overwrite => if is_yes(answer) {
            Stage::Ask(Question::Url1)
        } else {
            Stage::Declined
        },
        Question::Url1 => if is_valid_url(answer) {
            Stage::Ask(Question::Url2)
        } else {
            Stage::Ask(Question::Url1)
        },
        Question::Url2 => if is_valid_url(answer) || is_skip(answer) {
            Stage::Ask(Question::Latency1)
        } else {
            Stage::Ask(Question::Url2)
        },
        Question::ScanKey => Stage::Ask(Question::MythXKey),
        Question::MythXKey => Stage::Ask(Question::FilePath),
        _ => Stage::Ask(question),
    }
}

/// The stage after a number was given to `question`, where `url_2` is the url of the
/// second endpoint. A question that wants no number is asked again.
pub open spec fn stage_after_millis(question: Question, url_2: Seq<char>) -> Stage {
    match question {
        Question::Latency1 => if has_second_endpoint(url_2) {
            Stage::Ask(Question::Latency2)
        } else {
            Stage::Ask(Question::ScanKey)
        },
        Question::Latency2 => Stage::Ask(Question::ScanKey),
        _ => Stage::Ask(question),
    }
}

/// The stage after a path was given to `question`. A question that wants no path is asked
/// again.
pub open spec fn stage_after_folder(question: Question, writable: bool) -> Stage {
    match question {
        Question::FilePath => if writable {
            Stage::Done
        } else {
            Stage::Ask(Question::FilePath)
        },
        _ => Stage::Ask(question),
    }
}

/// What the user is told after `answer` was given to `question`.
pub open spec fn notice_after(question: Question, answer: Answer) -> Option<Notice> {
    match (question, answer) {
        (Question::Url1, Answer::Text(_)) => Some(Notice::UrlInvalid),
        (Question::Url2, Answer::Text(url)) => if is_skip(url@) {
            None
        } else {
            Some(Notice::UrlInvalid)
        },
        (Question::FilePath, Answer::Folder { .. }) => Some(Notice::PathInvalid),
        _ => None,
    }
}

impl Setup {
    /// Whether `self` is `before` after `answer`: an answer of the kind that the question
    /// wants is written to the one setting that the question is about, accepted or not,
    /// and moves the stage on; any other answer, and any answer once the wizard is done or
    /// was declined, changes nothing.
    pub open spec fn follows(self, before: Setup, answer: Answer) -> bool {
        match (before.stage, answer) {
            (Stage::Ask(question), Answer::Text(text)) => {
                &&& self.stage == stage_after_text(question, text@)
                &&& self.settings == match question {
                    Question::Url1 => Settings {
                        jsonrpc: crate::settings::JsonRpc { url_1: text, ..before.settings.jsonrpc },
                        ..before.settings
                    },
                    Question::Url2 => Settings {
                        jsonrpc: crate::settings::JsonRpc { url_2: text, ..before.settings.jsonrpc },
                        ..before.settings
                    },
                    Question::ScanKey => Settings {
                        scan: crate::settings::Scan { key: text },
                        ..before.settings
                    },
                    Question::MythXKey => Settings {
                        mythx: crate::settings::MythX { key: text },
                        ..before.settings
                    },
                    _ => before.settings,
                }
            },
            (Stage::Ask(question), Answer::Millis(millis)) => {
                &&& self.stage == stage_after_millis(question, before.settings.jsonrpc.url_2@)
                &&& self.settings == match question {
                    Question::Latency1 => Settings {
                        jsonrpc: crate::settings::JsonRpc {
                            latency_1: millis,
                            ..before.settings.jsonrpc
                        },
                        ..before.settings
                    },
                    Question::Latency2 => Settings {
                        jsonrpc: crate::settings::JsonRpc {
                            latency_2: millis,
                            ..before.settings.jsonrpc
                        },
                        ..before.settings
                    },
                    _ => before.settings,
                }
            },
            (Stage::Ask(question), Answer::Folder { path, writable }) => {
                &&& self.stage == stage_after_folder(question, writable)
                &&& self.settings == match question {
                    Question::FilePath => Settings {
                        storage: crate::settings::Storage {
                            file_path: path,
                            ..before.settings.storage
                        },
                        ..before.settings
                    },
                    _ => before.settings,
                }
            },
            _ => self == before,
        }
    }

    /// The wizard at its start: nothing is filled in, and the first question is whether
    /// the settings file may be overwritten.
    pub fn new() -> (setup: Setup)
        ensures
            setup.settings.is_blank(),
            setup.stage == Stage::Ask(Question::Overwrite),
    {
        Setup { settings: Settings::default(), stage: Stage::Ask(Question::Overwrite) }
    }

    /// Takes the answer to the question that the wizard stands at, and returns what the
    /// user is to be told about it.
    pub fn answer(&mut self, answer: Answer) -> (notice: Option<Notice>)
        ensures
            final(self).follows(*old(self), answer),
            notice == match old(self).stage {
                Stage::Ask(question) => notice_after(question, answer),
                _ => None,
            },
    {
        let question = match self.stage {
            Stage::Ask(question) => question,
            _ => {
                return None;
            },
        };
        match answer {
            Answer::Text(text) => {
                match question {
                    Question::Overwrite => {
                        self.stage = if affirms(text.as_str()) {
                            Stage::Ask(Question::Url1)
                        } else {
                            Stage::Declined
                        };
                        None
                    },
                    Question::Url1 => {
                        if valid_url(text.as_str()) {
                            self.stage = Stage::Ask(Question::Url2);
                        }
                        self.settings.jsonrpc.url_1 = text;
                        Some(Notice::UrlInvalid)
                    },
                    Question::Url2 => {
                        let skip = skips(text.as_str());
                        if skip || valid_url(text.as_str()) {
                            self.stage = Stage::Ask(Question::Latency1);
                        }
                        self.settings.jsonrpc.url_2 = text;
                        if skip {
                            None
                        } else {
                            Some(Notice::UrlInvalid)
                        }
                    },
                    Question::ScanKey => {
                        self.settings.scan.key = text;
                        self.stage = Stage::Ask(Question::MythXKey);
                        None
                    },
                    Question::MythXKey => {
                        self.settings.mythx.key = text;
                        self.stage = Stage::Ask(Question::FilePath);
                        None
                    },
                    _ => None,
                }
            },
            Answer::Millis(millis) => {
                match question {
                    Question::Latency1 => {
                        self.settings.jsonrpc.latency_1 = millis;
                        self.stage = if self.settings.jsonrpc.url_2.as_str().unicode_len() > 2 {
                            Stage::Ask(Question::Latency2)
                        } else {
                            Stage::Ask(Question::ScanKey)
                        };
                    },
                    Question::Latency2 => {
                        self.settings.jsonrpc.latency_2 = millis;
                        self.stage = Stage::Ask(Question::ScanKey);
                    },
                    _ => {},
                }
                None
            },
            Answer::Folder { path, writable } => {
                match question {
                    Question::FilePath => {
                        self.settings.storage.file_path = path;
                        if writable {
                            self.stage = Stage::Done;
                        }
                        Some(Notice::PathInvalid)
                    },
                    _ => None,
                }
            },
        }
    }
}

/// Whether `answer` is `y` or `yes`, in upper or lower case.
pub fn affirms(answer: &str) -> (yes: bool)
    ensures
        yes == is_yes(answer@),
{
    let len = answer.unicode_len();
    if len == 1 {
        let y = answer.get_char(0);
        y == 'y' || y == 'Y'
    } else if len == 3 {
        let y = answer.get_char(0);
        let e = answer.get_char(1);
        let s = answer.get_char(2);
        (y == 'y' || y == 'Y') && (e == 'e' || e == 'E') && (s == 's' || s == 'S')
    } else {
        false
    }
}

/// Whether `url`, given for the second endpoint, asks to go without one.
pub fn skips(url: &str) -> (skip: bool)
    ensures
        skip == is_skip(url@),
{
    url.unicode_len() == 1 && url.get_char(0) == 's'
}

} // verus!
