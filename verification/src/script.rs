//! The section of scripts: an array of tables, each of which attaches the
//! text of a script to a device filter.

use vstd::prelude::*;
use crate::document::{Node, entries_of, items_of, text_of};
use crate::error::{ConfigError, ErrorKind, Failure};
use crate::model::{Script, ScriptView, optional_text, script_views};
use crate::text::same_text;

verus! {

/// A script while its table is being read: what each key gave so far.
pub struct ScriptDraft {
    pub device: Option<String>,
    pub code: Option<String>,
}

/// A `ScriptDraft` as a mathematical value.
pub struct ScriptDraftView {
    pub device: Option<Seq<char>>,
    pub code: Option<Seq<char>>,
}

impl View for ScriptDraft {
    type V = ScriptDraftView;

    open spec fn view(&self) -> ScriptDraftView {
        ScriptDraftView { device: optional_text(self.device), code: optional_text(self.code) }
    }
}

/// The draft of a script before any key was read.
pub open spec fn blank_script() -> ScriptDraftView {
    ScriptDraftView { device: None, code: None }
}

/// The draft after one entry of a script's table was read, or the fault of
/// that entry, seen from the entry's value.
pub open spec fn script_step(draft: ScriptDraftView, key: Seq<char>, value: Node) -> Result<
    ScriptDraftView,
    Failure,
> {
    if key == "device"@ {
        match text_of(value) {
            Ok(text) => Ok(ScriptDraftView { device: Some(text), ..draft }),
            Err(failure) => Err(failure),
        }
    } else if key == "script"@ {
        match text_of(value) {
            Ok(text) => Ok(ScriptDraftView { code: Some(text), ..draft }),
            Err(failure) => Err(failure),
        }
    } else {
        Err(Failure::here(ErrorKind::UnrecognizedKey))
    }
}

/// The draft after the entries of a script's table from position `from` on
/// were read in order, or the fault of the first entry that has one, seen
/// from the table.
pub open spec fn script_scan(entries: Seq<(String, Node)>, from: int, draft: ScriptDraftView)
    -> Result<ScriptDraftView, Failure>
    decreases entries.len() - from,
{
    if from < 0 || from >= entries.len() {
        Ok(draft)
    } else {
        match script_step(draft, entries[from].0@, entries[from].1) {
            Ok(next) => script_scan(entries, from + 1, next),
            Err(failure) => Err(failure.under(entries[from].0@)),
        }
    }
}

/// The script that a finished draft gives. Both keys are mandatory; where
/// both are absent the fault names `device`.
pub open spec fn script_made(draft: ScriptDraftView) -> Result<ScriptView, Failure> {
    match draft.device {
        None => Err(Failure::at_key(ErrorKind::Missing, "device"@)),
        Some(device) => match draft.code {
            None => Err(Failure::at_key(ErrorKind::Missing, "script"@)),
            Some(code) => Ok(ScriptView { device, code }),
        },
    }
}

/// The script that one item of the section describes, or the item's fault,
/// seen from the item.
pub open spec fn script_of(item: Node) -> Result<ScriptView, Failure> {
    match entries_of(item) {
        Ok(entries) => match script_scan(entries, 0, blank_script()) {
            Ok(draft) => script_made(draft),
            Err(failure) => Err(failure),
        },
        Err(failure) => Err(failure),
    }
}

/// The scripts gathered after the items of the section from position `from`
/// on were read in order, or the fault of the first item that has one, seen
/// from the section.
pub open spec fn scripts_scan(items: Seq<Node>, from: int, found: Seq<ScriptView>) -> Result<
    Seq<ScriptView>,
    Failure,
>
    decreases items.len() - from,
{
    if from < 0 || from >= items.len() {
        Ok(found)
    } else {
        match script_of(items[from]) {
            Ok(script) => scripts_scan(items, from + 1, found.push(script)),
            Err(failure) => Err(failure.item(from)),
        }
    }
}

/// The scripts gathered after a whole section was read: those gathered
/// before, then one for each item, in the order of the section.
pub open spec fn scripts_of(section: Node, found: Seq<ScriptView>) -> Result<
    Seq<ScriptView>,
    Failure,
> {
    match items_of(section) {
        Ok(items) => scripts_scan(items, 0, found),
        Err(failure) => Err(failure),
    }
}

impl ScriptDraft {
    /// A draft before any key was read.
    pub fn blank() -> (draft: ScriptDraft)
        ensures
            draft@ == blank_script(),
    {
        ScriptDraft { device: None, code: None }
    }

    /// Reads one entry of a script's table into the draft. On a fault the
    /// draft is left as it was.
    pub fn read(&mut self, key: &str, value: &Node) -> (done: Result<(), ConfigError>)
        ensures
            match done {
                Ok(()) => script_step(old(self)@, key@, *value) == Ok::<ScriptDraftView, Failure>(
                    final(self)@,
                ),
                Err(error) => script_step(old(self)@, key@, *value) == Err::<
                    ScriptDraftView,
                    Failure,
                >(error@) && *final(self) == *old(self),
            },
    {
        if same_text(key, "device") {
            let text = value.expect_str()?;
            self.device = Some(text.clone());
        } else if same_text(key, "script") {
            let text = value.expect_str()?;
            self.code = Some(text.clone());
        } else {
            return Err(ConfigError::here(ErrorKind::UnrecognizedKey));
        }
        Ok(())
    }

    /// Ends the draft.
    pub fn finish(self) -> (done: Result<Script, ConfigError>)
        ensures
            match done {
                Ok(script) => script_made(self@) == Ok::<ScriptView, Failure>(script@),
                Err(error) => script_made(self@) == Err::<ScriptView, Failure>(error@),
            },
    {
        let device = match self.device {
            Some(device) => device,
            None => {
                return Err(ConfigError::at_key(ErrorKind::Missing, "device"));
            },
        };
        let code = match self.code {
            Some(code) => code,
            None => {
                return Err(ConfigError::at_key(ErrorKind::Missing, "script"));
            },
        };
        Ok(Script { device, code })
    }
}

/// Reads one item of the section of scripts: a table of the keys `device`
/// and `script`.
pub fn parse_script(item: &Node) -> (done: Result<Script, ConfigError>)
    ensures
        match done {
            Ok(script) => script_of(*item) == Ok::<ScriptView, Failure>(script@),
            Err(error) => script_of(*item) == Err::<ScriptView, Failure>(error@),
        },
{
    let entries = item.expect_table()?;
    let mut draft = ScriptDraft::blank();
    let mut at: usize = 0;
    while at < entries.len()
        invariant
            at <= entries.len(),
            entries_of(*item) == Ok::<Seq<(String, Node)>, Failure>(entries@),
            script_scan(entries@, at as int, draft@) == script_scan(entries@, 0, blank_script()),
        decreases entries.len() - at,
    {
        let key = &entries[at].0;
        match draft.read(key.as_str(), &entries[at].1) {
            Ok(()) => {},
            Err(error) => {
                return Err(error.under(key.as_str()));
            },
        }
        at = at + 1;
    }
    draft.finish()
}

/// Reads the section of scripts and appends each script, in the order of
/// the section.
pub fn parse_scripts(section: &Node, found: &mut Vec<Script>) -> (done: Result<(), ConfigError>)
    ensures
        match done {
            Ok(()) => scripts_of(*section, script_views(old(found)@)) == Ok::<
                Seq<ScriptView>,
                Failure,
            >(script_views(final(found)@)),
            Err(error) => scripts_of(*section, script_views(old(found)@)) == Err::<
                Seq<ScriptView>,
                Failure,
            >(error@),
        },
{
    let items = section.expect_array()?;
    let mut at: usize = 0;
    while at < items.len()
        invariant
            at <= items.len(),
            items_of(*section) == Ok::<Seq<Node>, Failure>(items@),
            scripts_scan(items@, at as int, script_views(found@)) == scripts_scan(
                items@,
                0,
                script_views(old(found)@),
            ),
        decreases items.len() - at,
    {
        match parse_script(&items[at]) {
            Ok(script) => {
                proof {
                    assert(script_views(found@.push(script)) =~= script_views(found@).push(
                        script@,
                    ));
                }
                found.push(script);
            },
            Err(error) => {
                return Err(error.item(at));
            },
        }
        at = at + 1;
    }
    Ok(())
}

} // verus!
