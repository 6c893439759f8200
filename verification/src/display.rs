//! The form in which an output is handed to a caller: every field a plain
//! value or a text.

use crate::output::{Mode, OutputInfo, OutputRecord, Subpixel, text_of};
use vstd::prelude::*;

verus! {

/// The description of one output as it is listed.
#[derive(Debug, PartialEq, Eq)]
pub struct DisplayOutput {
    pub model: String,
    pub name: Option<String>,
    pub description: Option<String>,
    pub make: String,
    pub location: (i32, i32),
    pub subpixel: String,
    pub physical_size: (i32, i32),
    pub logical_position: Option<(i32, i32)>,
    pub logical_size: Option<(i32, i32)>,
    pub modes: Vec<String>,
}

/// The mathematical value of a [`DisplayOutput`].
pub struct DisplayRecord {
    pub model: Seq<char>,
    pub name: Option<Seq<char>>,
    pub description: Option<Seq<char>>,
    pub make: Seq<char>,
    pub location: (i32, i32),
    pub subpixel: Seq<char>,
    pub physical_size: (i32, i32),
    pub logical_position: Option<(i32, i32)>,
    pub logical_size: Option<(i32, i32)>,
    pub modes: Seq<Seq<char>>,
}

/// The texts that a sequence of strings holds.
pub open spec fn texts(v: Seq<String>) -> Seq<Seq<char>> {
    Seq::new(v.len(), |i: int| v[i]@)
}

impl View for DisplayOutput {
    type V = DisplayRecord;

    open spec fn view(&self) -> DisplayRecord {
        DisplayRecord {
            model: self.model@,
            name: text_of(self.name),
            description: text_of(self.description),
            make: self.make@,
            location: self.location,
            subpixel: self.subpixel@,
            physical_size: self.physical_size,
            logical_position: self.logical_position,
            logical_size: self.logical_size,
            modes: texts(self.modes@),
        }
    }
}

/// The one-line summary that the toolkit prints for a mode with these
/// dimensions, refresh rate and flags.
pub uninterp spec fn mode_text(
    width: i32,
    height: i32,
    refresh_rate: i32,
    current: bool,
    preferred: bool,
) -> Seq<char>;

/// The summary of one mode.
pub open spec fn mode_label(m: Mode) -> Seq<char> {
    mode_text(m.width, m.height, m.refresh_rate, m.current, m.preferred)
}

/// The summaries of a sequence of modes, in the same order.
pub open spec fn mode_labels(modes: Seq<Mode>) -> Seq<Seq<char>> {
    Seq::new(modes.len(), |i: int| mode_label(modes[i]))
}

/// The word for a subpixel layout.
pub open spec fn subpixel_label(subpixel: Subpixel) -> Seq<char> {
    match subpixel {
        Subpixel::NoSubpixels => "None"@,
        Subpixel::HorizontalRgb => "Horizontal RGB"@,
        Subpixel::HorizontalBgr => "Horizontal BGR"@,
        Subpixel::VerticalRgb => "Vertical RGB"@,
        Subpixel::VerticalBgr => "Vertical BGR"@,
        Subpixel::Unknown => "Unknown"@,
    }
}

/// The listed form of a record, given the summaries of its modes.
pub open spec fn display_of(rec: OutputRecord, modes: Seq<Seq<char>>) -> DisplayRecord {
    DisplayRecord {
        model: rec.model,
        name: rec.name,
        description: rec.description,
        make: rec.make,
        location: rec.location,
        subpixel: subpixel_label(rec.subpixel),
        physical_size: rec.physical_size,
        logical_position: rec.logical_position,
        logical_size: rec.logical_size,
        modes,
    }
}

/// The listed form of a record.
pub open spec fn shown(rec: OutputRecord) -> DisplayRecord {
    display_of(rec, mode_labels(rec.modes))
}

/// The word for a subpixel layout, as a string.
pub fn subpixel_to_string(subpixel: Subpixel) -> (r: String)
    ensures
        r@ == subpixel_label(subpixel),
{
    match subpixel {
        Subpixel::NoSubpixels => "None".to_owned(),
        Subpixel::HorizontalRgb => "Horizontal RGB".to_owned(),
        Subpixel::HorizontalBgr => "Horizontal BGR".to_owned(),
        Subpixel::VerticalRgb => "Vertical RGB".to_owned(),
        Subpixel::VerticalBgr => "Vertical BGR".to_owned(),
        Subpixel::Unknown => "Unknown".to_owned(),
    }
}

/// `smithay_client_toolkit::output::Mode`'s `Display`, through `to_string`:
/// the text depends on the five fields alone, and is given the name
/// [`mode_text`].
#[verifier::external_body]
fn mode_summary(mode: &Mode) -> (r: String)
    ensures
        r@ == mode_text(mode.width, mode.height, mode.refresh_rate, mode.current, mode.preferred),
{
    let outside = smithay_client_toolkit::output::Mode {
        dimensions: (mode.width, mode.height),
        refresh_rate: mode.refresh_rate,
        current: mode.current,
        preferred: mode.preferred,
    };
    outside.to_string()
}

/// The summary of each mode, in order.
pub fn mode_summaries(modes: &Vec<Mode>) -> (r: Vec<String>)
    ensures
        texts(r@) == mode_labels(modes@),
{
    let mut out: Vec<String> = Vec::new();
    let mut i: usize = 0;
    while i < modes.len()
        invariant
            i <= modes@.len(),
            out@.len() == i,
            forall|j: int| 0 <= j < i ==> (#[trigger] out@[j])@ == mode_label(modes@[j]),
        decreases modes@.len() - i,
    {
        out.push(mode_summary(&modes[i]));
        i = i + 1;
    }
    assert(texts(out@) =~= mode_labels(modes@));
    out
}

fn copy_text(s: &Option<String>) -> (r: Option<String>)
    ensures
        text_of(r) == text_of(*s),
{
    match s {
        Some(t) => Some(t.clone()),
        None => None,
    }
}

impl DisplayOutput {
    /// The listed form of `info`, with `modes` as the summaries of its
    /// modes.
    pub fn assemble(info: &OutputInfo, modes: Vec<String>) -> (r: DisplayOutput)
        ensures
            r@ == display_of(info@, texts(modes@)),
    {
        DisplayOutput {
            model: info.model.clone(),
            name: copy_text(&info.name),
            description: copy_text(&info.description),
            make: info.make.clone(),
            location: info.location,
            subpixel: subpixel_to_string(info.subpixel),
            physical_size: info.physical_size,
            logical_position: info.logical_position,
            logical_size: info.logical_size,
            modes,
        }
    }

    /// The listed form of `info`.
    pub fn new(info: &OutputInfo) -> (r: DisplayOutput)
        ensures
            r@ == shown(info@),
    {
        let modes = mode_summaries(&info.modes);
        DisplayOutput::assemble(info, modes)
    }
}

} // verus!
