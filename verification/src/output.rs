//! One output's description: the messages that carry it, the record they
//! add up to, and the accumulation from the first to the second.

use vstd::prelude::*;

verus! {

/// How the colour components of a pixel are laid out.
#[derive(Debug, Clone, Copy, PartialEq, Eq, Structural)]
pub enum Subpixel {
    Unknown,
    NoSubpixels,
    HorizontalRgb,
    HorizontalBgr,
    VerticalRgb,
    VerticalBgr,
}

/// One display mode of an output. The refresh rate is in millihertz.
#[derive(Debug, Clone, Copy, PartialEq, Eq, Structural)]
pub struct Mode {
    pub width: i32,
    pub height: i32,
    pub refresh_rate: i32,
    pub current: bool,
    pub preferred: bool,
}

/// What is known of one output.
#[derive(Debug, PartialEq, Eq)]
pub struct OutputInfo {
    pub model: String,
    pub name: Option<String>,
    pub description: Option<String>,
    pub make: String,
    pub location: (i32, i32),
    pub subpixel: Subpixel,
    pub physical_size: (i32, i32),
    pub scale_factor: i32,
    pub logical_position: Option<(i32, i32)>,
    pub logical_size: Option<(i32, i32)>,
    pub modes: Vec<Mode>,
}

/// The mathematical value of an [`OutputInfo`].
pub struct OutputRecord {
    pub model: Seq<char>,
    pub name: Option<Seq<char>>,
    pub description: Option<Seq<char>>,
    pub make: Seq<char>,
    pub location: (i32, i32),
    pub subpixel: Subpixel,
    pub physical_size: (i32, i32),
    pub scale_factor: i32,
    pub logical_position: Option<(i32, i32)>,
    pub logical_size: Option<(i32, i32)>,
    pub modes: Seq<Mode>,
}

/// The value of an optional string.
pub open spec fn text_of(s: Option<String>) -> Option<Seq<char>> {
    match s {
        Some(t) => Some(t@),
        None => None,
    }
}

impl View for OutputInfo {
    type V = OutputRecord;

    open spec fn view(&self) -> OutputRecord {
        OutputRecord {
            model: self.model@,
            name: text_of(self.name),
            description: text_of(self.description),
            make: self.make@,
            location: self.location,
            subpixel: self.subpixel,
            physical_size: self.physical_size,
            scale_factor: self.scale_factor,
            logical_position: self.logical_position,
            logical_size: self.logical_size,
            modes: self.modes@,
        }
    }
}

/// A message that the compositor sends about one output.
#[derive(Debug, PartialEq, Eq)]
pub enum OutputEvent {
    Geometry {
        x: i32,
        y: i32,
        physical_width: i32,
        physical_height: i32,
        subpixel: i32,
        make: String,
        model: String,
        transform: i32,
    },
    Mode { flags: u32, width: i32, height: i32, refresh: i32 },
    Done,
    Scale { factor: i32 },
    Name { name: String },
    Description { description: String },
}

/// The mathematical value of an [`OutputEvent`].
pub enum OutputMsg {
    Geometry {
        x: i32,
        y: i32,
        physical_width: i32,
        physical_height: i32,
        subpixel: i32,
        make: Seq<char>,
        model: Seq<char>,
        transform: i32,
    },
    Mode { flags: u32, width: i32, height: i32, refresh: i32 },
    Done,
    Scale { factor: i32 },
    Name { name: Seq<char> },
    Description { description: Seq<char> },
}

impl View for OutputEvent {
    type V = OutputMsg;

    open spec fn view(&self) -> OutputMsg {
        match *self {
            OutputEvent::Geometry {
                x,
                y,
                physical_width,
                physical_height,
                subpixel,
                make,
                model,
                transform,
            } => OutputMsg::Geometry {
                x,
                y,
                physical_width,
                physical_height,
                subpixel,
                make: make@,
                model: model@,
                transform,
            },
            OutputEvent::Mode { flags, width, height, refresh } => OutputMsg::Mode {
                flags,
                width,
                height,
                refresh,
            },
            OutputEvent::Done => OutputMsg::Done,
            OutputEvent::Scale { factor } => OutputMsg::Scale { factor },
            OutputEvent::Name { name } => OutputMsg::Name { name: name@ },
            OutputEvent::Description { description } => OutputMsg::Description {
                description: description@,
            },
        }
    }
}

/// The record of an output of which nothing has been said yet.
pub open spec fn blank_record() -> OutputRecord {
    OutputRecord {
        model: Seq::empty(),
        name: None,
        description: None,
        make: Seq::empty(),
        location: (0i32, 0i32),
        subpixel: Subpixel::Unknown,
        physical_size: (0i32, 0i32),
        scale_factor: 1i32,
        logical_position: None,
        logical_size: None,
        modes: Seq::empty(),
    }
}

/// The layout that a geometry message's code stands for.
pub open spec fn subpixel_of(code: i32) -> Subpixel {
    if code == 1 {
        Subpixel::NoSubpixels
    } else if code == 2 {
        Subpixel::HorizontalRgb
    } else if code == 3 {
        Subpixel::HorizontalBgr
    } else if code == 4 {
        Subpixel::VerticalRgb
    } else if code == 5 {
        Subpixel::VerticalBgr
    } else {
        Subpixel::Unknown
    }
}

/// The mode that a mode message announces: bit 0 of the flags marks the
/// current mode, bit 1 the preferred one.
pub open spec fn mode_of(flags: u32, width: i32, height: i32, refresh: i32) -> Mode {
    Mode {
        width,
        height,
        refresh_rate: refresh,
        current: flags & 1 != 0,
        preferred: flags & 2 != 0,
    }
}

/// `rec` with what a property message says written into it. `Done` carries
/// no property and leaves the record as it is.
pub open spec fn with_property(rec: OutputRecord, msg: OutputMsg) -> OutputRecord {
    match msg {
        OutputMsg::Geometry { x, y, physical_width, physical_height, subpixel, make, model, .. } => {
            OutputRecord {
                location: (x, y),
                physical_size: (physical_width, physical_height),
                subpixel: subpixel_of(subpixel),
                make,
                model,
                ..rec
            }
        },
        OutputMsg::Mode { flags, width, height, refresh } => OutputRecord {
            modes: rec.modes.push(mode_of(flags, width, height, refresh)),
            ..rec
        },
        OutputMsg::Done => rec,
        OutputMsg::Scale { factor } => OutputRecord { scale_factor: factor, ..rec },
        OutputMsg::Name { name } => OutputRecord { name: Some(name), ..rec },
        OutputMsg::Description { description } => OutputRecord {
            description: Some(description),
            ..rec
        },
    }
}

/// The layout that a geometry message's code stands for. A code that
/// the protocol does not define counts as unknown.
pub fn subpixel_from_code(code: i32) -> (r: Subpixel)
    ensures
        r == subpixel_of(code),
{
    if code == 1 {
        Subpixel::NoSubpixels
    } else if code == 2 {
        Subpixel::HorizontalRgb
    } else if code == 3 {
        Subpixel::HorizontalBgr
    } else if code == 4 {
        Subpixel::VerticalRgb
    } else if code == 5 {
        Subpixel::VerticalBgr
    } else {
        Subpixel::Unknown
    }
}

impl Mode {
    /// The mode that a mode message announces.
    pub fn from_message(flags: u32, width: i32, height: i32, refresh: i32) -> (r: Mode)
        ensures
            r == mode_of(flags, width, height, refresh),
    {
        Mode {
            width,
            height,
            refresh_rate: refresh,
            current: flags & 1 != 0,
            preferred: flags & 2 != 0,
        }
    }
}

impl OutputInfo {
    /// The description of an output before any message about it.
    pub fn blank() -> (r: OutputInfo)
        ensures
            r@ == blank_record(),
    {
        OutputInfo {
            model: String::new(),
            name: None,
            description: None,
            make: String::new(),
            location: (0, 0),
            subpixel: Subpixel::Unknown,
            physical_size: (0, 0),
            scale_factor: 1,
            logical_position: None,
            logical_size: None,
            modes: Vec::new(),
        }
    }

    /// Writes one property message into the description.
    pub fn set_property(&mut self, event: OutputEvent)
        ensures
            final(self)@ == with_property(old(self)@, event@),
    {
        match event {
            OutputEvent::Geometry {
                x,
                y,
                physical_width,
                physical_height,
                subpixel,
                make,
                model,
                transform: _,
            } => {
                self.location = (x, y);
                self.physical_size = (physical_width, physical_height);
                self.subpixel = subpixel_from_code(subpixel);
                self.make = make;
                self.model = model;
            },
            OutputEvent::Mode { flags, width, height, refresh } => {
                self.modes.push(Mode::from_message(flags, width, height, refresh));
            },
            OutputEvent::Done => {},
            OutputEvent::Scale { factor } => {
                self.scale_factor = factor;
            },
            OutputEvent::Name { name } => {
                self.name = Some(name);
            },
            OutputEvent::Description { description } => {
                self.description = Some(description);
            },
        }
    }
}

/// One bound output: the object that stands for it, the global it was bound
/// from, and how far its description has come.
#[derive(Debug, PartialEq, Eq)]
pub struct OutputEntry {
    pub object_id: u32,
    pub global: u32,
    pub version: u32,
    /// Whether the output has been reported as added.
    pub announced: bool,
    /// Whether `info` is a finished description.
    pub complete: bool,
    pub info: OutputInfo,
}

/// The mathematical value of an [`OutputEntry`].
pub struct OutputSlot {
    pub object_id: u32,
    pub global: u32,
    pub version: u32,
    pub announced: bool,
    pub complete: bool,
    pub record: OutputRecord,
}

impl View for OutputEntry {
    type V = OutputSlot;

    open spec fn view(&self) -> OutputSlot {
        OutputSlot {
            object_id: self.object_id,
            global: self.global,
            version: self.version,
            announced: self.announced,
            complete: self.complete,
            record: self.info@,
        }
    }
}

/// The slot of an output that has just been bound.
pub open spec fn fresh_slot(object_id: u32, global: u32, version: u32) -> OutputSlot {
    OutputSlot {
        object_id,
        global,
        version,
        announced: false,
        complete: false,
        record: blank_record(),
    }
}

/// The slot after one message. `Done` finishes a pending description and
/// leaves a finished one alone. A property message on a finished description
/// starts over from the blank record; on a pending one it adds to it.
pub open spec fn slot_after(slot: OutputSlot, msg: OutputMsg) -> OutputSlot {
    if msg is Done {
        if slot.complete {
            slot
        } else {
            OutputSlot { complete: true, announced: true, ..slot }
        }
    } else {
        OutputSlot {
            complete: false,
            record: with_property(
                if slot.complete {
                    blank_record()
                } else {
                    slot.record
                },
                msg,
            ),
            ..slot
        }
    }
}

/// Whether `msg` makes the output count as added: it finishes the first
/// description that the output ever had.
pub open spec fn announces(slot: OutputSlot, msg: OutputMsg) -> bool {
    msg is Done && !slot.complete && !slot.announced
}

/// The slot after a sequence of messages, first to last.
pub open spec fn slot_after_all(slot: OutputSlot, msgs: Seq<OutputMsg>) -> OutputSlot
    decreases msgs.len(),
{
    if msgs.len() == 0 {
        slot
    } else {
        slot_after(slot_after_all(slot, msgs.drop_last()), msgs.last())
    }
}

/// The record after a sequence of property messages, first to last.
pub open spec fn with_properties(rec: OutputRecord, msgs: Seq<OutputMsg>) -> OutputRecord
    decreases msgs.len(),
{
    if msgs.len() == 0 {
        rec
    } else {
        with_property(with_properties(rec, msgs.drop_last()), msgs.last())
    }
}

impl OutputEntry {
    /// The entry of an output that has just been bound.
    pub fn fresh(object_id: u32, global: u32, version: u32) -> (r: OutputEntry)
        ensures
            r@ == fresh_slot(object_id, global, version),
    {
        OutputEntry {
            object_id,
            global,
            version,
            announced: false,
            complete: false,
            info: OutputInfo::blank(),
        }
    }

    /// Takes one message in. Returns whether the output now counts as added.
    pub fn accept(&mut self, event: OutputEvent) -> (added: bool)
        ensures
            final(self)@ == slot_after(old(self)@, event@),
            added == announces(old(self)@, event@),
    {
        match event {
            OutputEvent::Done => {
                if self.complete {
                    false
                } else {
                    let added = !self.announced;
                    self.complete = true;
                    self.announced = true;
                    added
                }
            },
            other => {
                if self.complete {
                    self.info = OutputInfo::blank();
                    self.complete = false;
                }
                self.info.set_property(other);
                false
            },
        }
    }
}

} // verus!
