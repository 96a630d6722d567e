//! Files and stored settings: what a save or an open came to, the slot a
//! file pick delivers into, where remembered settings live, and what the
//! status bar says about each.
//!
//! The dialogs, the file system and the browser's storage are the caller's;
//! what is decided about their answers is here.

use vstd::prelude::*;
use crate::text::push_char;

verus! {

/// What happened to a save request.
#[derive(Debug, Clone, PartialEq, Eq)]
pub enum Saved {
    /// Written to this path (desktop).
    To(String),
    /// Handed to the browser as a download (web).
    Downloaded,
    /// The user dismissed the dialog.
    Cancelled,
}

/// What came back from a file picker.
#[derive(Debug, Clone, PartialEq, Eq)]
pub enum Opened {
    /// The user chose a file, and this is what was in it.
    File { name: String, text: String },
    /// The user dismissed the dialog.
    Cancelled,
}

/// Where an in-flight file pick delivers its result: a slot holding at most
/// one answer, which the UI drains each frame.
///
/// This is the slot alone, owned by whoever holds it. Sharing one slot
/// between the UI and a dialog running elsewhere is the caller's: it keeps
/// the slot behind a lock that all its holders use.
#[derive(Debug)]
pub struct Inbox {
    slot: Option<Result<Opened, String>>,
}

impl Inbox {
    /// The answer waiting in the slot, if any.
    pub closed spec fn pending(&self) -> Option<Result<Opened, String>> {
        self.slot
    }

    /// An empty slot.
    pub fn new() -> (i: Inbox)
        ensures
            i.pending() is None,
    {
        Inbox { slot: None }
    }

    /// Take the result of a finished pick, if one has arrived, leaving the
    /// slot empty.
    pub fn take(&mut self) -> (r: Option<Result<Opened, String>>)
        ensures
            r == old(self).pending(),
            final(self).pending() is None,
    {
        self.slot.take()
    }

    /// Deliver the result of a pick, replacing any answer not yet taken.
    pub fn put(&mut self, result: Result<Opened, String>)
        ensures
            final(self).pending() == Some(result),
    {
        self.slot = Some(result);
    }
}

impl Default for Inbox {
    fn default() -> (i: Self)
        ensures
            i.pending() is None,
    {
        Inbox::new()
    }
}

/// The slot after a delivery.
pub open spec fn after_put(result: Result<Opened, String>) -> Option<Result<Opened, String>> {
    Some(result)
}

/// What a take gives, and the slot after it.
pub open spec fn after_take(slot: Option<Result<Opened, String>>) -> (Option<Result<Opened, String>>, Option<Result<Opened, String>>) {
    (slot, None)
}

/// A take gives back what the last delivery put, and only once: the next
/// take finds the slot empty.
pub proof fn law_take_gives_back_put(result: Result<Opened, String>)
    ensures
        after_take(after_put(result)).0 == Some(result),
        after_take(after_take(after_put(result)).1).0 is None,
{
}

/// Filename under the config directory, and the local-storage key.
pub const REMEMBERED: &'static str = "settings.json";

/// Whether `dir` is a bare Windows drive such as `C:`, which a relative
/// path joins without a separator (`C:settings.json`, relative to that
/// drive's current directory). Only Windows, whose separator is `\\`, has
/// drives.
pub open spec fn bare_drive(dir: Seq<char>, separator: char) -> bool {
    &&& separator == '\\'
    &&& dir.len() == 2
    &&& dir[1] == ':'
    &&& (('a' <= dir[0] && dir[0] <= 'z') || ('A' <= dir[0] && dir[0] <= 'Z'))
}

/// `dir` joined with `settings.json` the way `Path::join` joins a relative
/// file name: a separator is added unless `dir` is empty, already ends in
/// one, or is a bare Windows drive. `/` always counts as a separator;
/// `separator` is the platform's own.
pub open spec fn remembered_path(dir: Seq<char>, separator: char) -> Seq<char> {
    let needs = dir.len() > 0 && dir.last() != '/' && dir.last() != separator && !bare_drive(dir, separator);
    dir + (if needs { seq![separator] } else { seq![] }) + "settings.json"@
}

/// Where the remembered settings live, given the platform's config
/// directory for this app, if it has one, and its path separator.
pub fn remembered_location(config_dir: Option<&str>, separator: char) -> (r: Option<String>)
    ensures
        match config_dir {
            Some(dir) => r is Some && r->0@ == remembered_path(dir@, separator),
            None => r is None,
        },
{
    match config_dir {
        None => None,
        Some(dir) => {
            let mut path = dir.to_string();
            let n = dir.unicode_len();
            if n > 0 {
                let last = dir.get_char(n - 1);
                let drive = separator == '\\' && n == 2 && last == ':' && {
                    let first = dir.get_char(0);
                    ('a' <= first && first <= 'z') || ('A' <= first && first <= 'Z')
                };
                if last != '/' && last != separator && !drive {
                    push_char(&mut path, separator);
                }
            }
            path.append(REMEMBERED);
            proof {
                reveal_strlit("settings.json");
            }
            Some(path)
        }
    }
}

/// A transient message for the status bar.
#[derive(Debug, Clone, PartialEq, Eq)]
pub struct Status {
    pub text: String,
    pub is_error: bool,
}

impl Status {
    /// A message reporting something that went as asked.
    pub fn info(text: String) -> (s: Status)
        ensures
            s.text == text,
            !s.is_error,
    {
        Status { text, is_error: false }
    }

    /// A message reporting a failure.
    pub fn error(text: String) -> (s: Status)
        ensures
            s.text == text,
            s.is_error,
    {
        Status { text, is_error: true }
    }
}

/// What the status bar says about saving `what`.
pub open spec fn save_report_text(what: Seq<char>, result: Result<Saved, String>) -> (Seq<char>, bool) {
    match result {
        Ok(Saved::To(path)) => ("Saved "@ + what + " to "@ + path@, false),
        Ok(Saved::Downloaded) => ("Downloaded "@ + what, false),
        Ok(Saved::Cancelled) => ("Save cancelled"@, false),
        Err(why) => ("Could not save "@ + what + ": "@ + why@, true),
    }
}

/// Report the outcome of saving `what` (such as `SVG` or `settings`).
pub fn save_report(what: &str, result: &Result<Saved, String>) -> (s: Status)
    ensures
        (s.text@, s.is_error) == save_report_text(what@, *result),
{
    match result {
        Ok(Saved::To(path)) => {
            let mut t = String::new();
            t.append("Saved ");
            t.append(what);
            t.append(" to ");
            t.append(path.as_str());
            Status::info(t)
        }
        Ok(Saved::Downloaded) => {
            let mut t = String::new();
            t.append("Downloaded ");
            t.append(what);
            Status::info(t)
        }
        Ok(Saved::Cancelled) => {
            let mut t = String::new();
            t.append("Save cancelled");
            Status::info(t)
        }
        Err(why) => {
            let mut t = String::new();
            t.append("Could not save ");
            t.append(what);
            t.append(": ");
            t.append(why.as_str());
            Status::error(t)
        }
    }
}

/// Something the app saves.
#[derive(Debug, Clone, Copy, PartialEq, Eq, Structural)]
pub enum Export {
    /// The flat pattern.
    Svg,
    /// The ellipsoid mesh.
    Obj,
    /// The flattened pattern's mesh.
    FlatObj,
    /// The settings.
    Settings,
}

impl Export {
    /// What follows the filename stem: the `-flat` mark of the flattened
    /// mesh, and the extension.
    pub open spec fn ending(self) -> Seq<char> {
        match self {
            Export::Svg => ".svg"@,
            Export::Obj => ".obj"@,
            Export::FlatObj => "-flat.obj"@,
            Export::Settings => ".json"@,
        }
    }

    /// How the status bar names it.
    pub open spec fn label_text(self) -> Seq<char> {
        match self {
            Export::Svg => "SVG"@,
            Export::Obj => "OBJ"@,
            Export::FlatObj => "flat OBJ"@,
            Export::Settings => "settings"@,
        }
    }

    /// The file name suggested for it, from the settings' filename stem.
    pub fn file_name(self, stem: &str) -> (name: String)
        ensures
            name@ == stem@ + self.ending(),
    {
        let mut name = stem.to_string();
        match self {
            Export::Svg => name.append(".svg"),
            Export::Obj => name.append(".obj"),
            Export::FlatObj => name.append("-flat.obj"),
            Export::Settings => name.append(".json"),
        }
        name
    }

    /// How the status bar names it, as in "Saved flat OBJ to ...".
    pub fn label(self) -> (s: &'static str)
        ensures
            s@ == self.label_text(),
    {
        match self {
            Export::Svg => "SVG",
            Export::Obj => "OBJ",
            Export::FlatObj => "flat OBJ",
            Export::Settings => "settings",
        }
    }
}

/// Saving one export never overwrites another made from the same
/// settings: different exports are given different file names.
pub proof fn law_exports_never_share_a_name(stem: Seq<char>, a: Export, b: Export)
    requires
        a != b,
    ensures
        stem + a.ending() != stem + b.ending(),
{
    reveal_strlit(".svg");
    reveal_strlit(".obj");
    reveal_strlit("-flat.obj");
    reveal_strlit(".json");
    if stem + a.ending() == stem + b.ending() {
        assert((stem + a.ending()).skip(stem.len() as int) =~= a.ending());
        assert((stem + b.ending()).skip(stem.len() as int) =~= b.ending());
        assert(a.ending()[1] != b.ending()[1] || a.ending().len() != b.ending().len());
    }
}

/// What to do with what a file pick delivered.
#[derive(Debug, Clone, PartialEq, Eq)]
pub enum OpenOutcome {
    /// Nothing arrived, or the user cancelled: leave everything as it is.
    Nothing,
    /// The pick failed: say so.
    Failed(Status),
    /// A file arrived: read it as settings.
    Load { name: String, text: String },
}

/// Decide what to do with the contents of the inbox.
pub fn open_outcome(delivered: Option<Result<Opened, String>>) -> (o: OpenOutcome)
    ensures
        match delivered {
            None => o == OpenOutcome::Nothing,
            Some(Ok(Opened::Cancelled)) => o == OpenOutcome::Nothing,
            Some(Ok(Opened::File { name, text })) => o == (OpenOutcome::Load { name, text }),
            Some(Err(why)) => o matches OpenOutcome::Failed(s)
                && s.is_error && s.text@ == "Could not open settings: "@ + why@,
        },
{
    match delivered {
        None => OpenOutcome::Nothing,
        Some(Ok(Opened::Cancelled)) => OpenOutcome::Nothing,
        Some(Ok(Opened::File { name, text })) => OpenOutcome::Load { name, text },
        Some(Err(why)) => {
            let mut t = String::new();
            t.append("Could not open settings: ");
            t.append(why.as_str());
            OpenOutcome::Failed(Status::error(t))
        }
    }
}

/// What the status bar says after settings were restored from `location`,
/// or from somewhere that cannot be named.
pub fn restored_status(location: Option<&str>) -> (s: Status)
    ensures
        !s.is_error,
        s.text@ == match location {
            Some(l) => "Restored your last settings from "@ + l@,
            None => "Restored your last settings"@,
        },
{
    let mut t = String::new();
    match location {
        Some(l) => {
            t.append("Restored your last settings from ");
            t.append(l);
        }
        None => {
            t.append("Restored your last settings");
        }
    }
    Status::info(t)
}

} // verus!
