//! The states that the events of the compositor drive: the discovery of
//! outputs, the exchange for one frame, and the overlay surfaces of a frozen
//! screen.

use crate::error::Error;
use crate::output::{OutputInfo, OutputPositioning, Transform, WlOutputMode};
use crate::screencopy::{is_capture_format, spec_is_capture_format, FrameFormat};
use std::collections::HashSet;
use vstd::prelude::*;

verus! {

/// Name of the interface under which the registry announces an output.
pub open spec fn output_interface() -> Seq<char> {
    "wl_output"@
}

/// Lowest version of the output interface that sends every property this
/// library reads.
pub const MIN_OUTPUT_VERSION: u32 = 4;

/// What to do about a global that the registry announces.
#[derive(Debug, Copy, Clone, PartialEq, Eq, Structural)]
pub enum GlobalAction {
    /// An output that can be used: bind it at [`MIN_OUTPUT_VERSION`].
    Bind,
    /// An output too old to send the properties that are read: warn, and
    /// pass it over.
    SkipOutdated,
    /// Not an output: nothing to do.
    Ignore,
}

/// What is done about a global of the given interface and version.
pub open spec fn spec_global_action(interface: Seq<char>, version: u32) -> GlobalAction {
    if interface != output_interface() {
        GlobalAction::Ignore
    } else if version < MIN_OUTPUT_VERSION {
        GlobalAction::SkipOutdated
    } else {
        GlobalAction::Bind
    }
}

/// What the registry can tell about one output.
#[derive(Debug, Clone, PartialEq, Eq)]
pub enum OutputEvent {
    /// Name of the output.
    Name { name: String },
    /// Human-readable description of the output.
    Description { description: String },
    /// Pixel dimensions of a mode of the output.
    Mode { width: i32, height: i32 },
    /// Physical properties; `transform` is `None` where the compositor sent
    /// a value that the protocol does not define.
    Geometry { transform: Option<Transform> },
    /// Scale factor.
    Scale { factor: i32 },
    /// Every property of the output has been sent.
    Done,
    /// Any other event.
    Other,
}

/// What the output-position extension can tell about one output.
#[derive(Debug, Copy, Clone, PartialEq, Eq, Structural)]
pub enum XdgOutputEvent {
    /// Position in the compositor's logical space.
    LogicalPosition { x: i32, y: i32 },
    /// Size in the compositor's logical space.
    LogicalSize { width: i32, height: i32 },
    /// Any other event.
    Other,
}

/// Whether `info` is what is known of an output announced as `id` before any
/// of its properties has arrived.
pub open spec fn is_fresh_output(info: OutputInfo, id: u32) -> bool {
    &&& info.id == id
    &&& info.name@ == Seq::<char>::empty()
    &&& info.description@ == Seq::<char>::empty()
    &&& info.transform == Transform::Normal
    &&& info.scale == 1
    &&& info.dimensions == (OutputPositioning { x: 0, y: 0, width: 0, height: 0 })
    &&& info.mode == (WlOutputMode { width: 0, height: 0 })
}

/// An output after one more event about it.
pub open spec fn apply_output_event(info: OutputInfo, event: OutputEvent) -> OutputInfo {
    match event {
        OutputEvent::Name { name } => OutputInfo { name, ..info },
        OutputEvent::Description { description } => OutputInfo { description, ..info },
        OutputEvent::Mode { width, height } => OutputInfo {
            mode: WlOutputMode { width, height },
            ..info
        },
        OutputEvent::Geometry { transform: Some(transform) } => OutputInfo { transform, ..info },
        OutputEvent::Scale { factor } => OutputInfo { scale: factor, ..info },
        _ => info,
    }
}

/// An output after one more event of the output-position extension about it.
pub open spec fn apply_xdg_output_event(info: OutputInfo, event: XdgOutputEvent) -> OutputInfo {
    match event {
        XdgOutputEvent::LogicalPosition { x, y } => OutputInfo {
            dimensions: OutputPositioning { x, y, ..info.dimensions },
            ..info
        },
        XdgOutputEvent::LogicalSize { width, height } => OutputInfo {
            dimensions: OutputPositioning { width, height, ..info.dimensions },
            ..info
        },
        XdgOutputEvent::Other => info,
    }
}

/// Position of the first output, from position `from` on, announced as `id`.
pub open spec fn output_position(outputs: Seq<OutputInfo>, id: u32, from: int) -> Option<int>
    decreases outputs.len() - from,
{
    if from < 0 || from >= outputs.len() {
        None
    } else if outputs[from].id == id {
        Some(from)
    } else {
        output_position(outputs, id, from + 1)
    }
}

/// The position that [`output_position`] names holds an output announced as
/// `id`, and no position between `from` and it does; where it names none, no
/// position from `from` on does.
pub proof fn lemma_output_position(outputs: Seq<OutputInfo>, id: u32, from: int)
    requires
        0 <= from,
    ensures
        match output_position(outputs, id, from) {
            Some(i) => {
                &&& from <= i < outputs.len()
                &&& outputs[i].id == id
                &&& forall|j: int| from <= j < i ==> outputs[j].id != id
            },
            None => forall|j: int| from <= j < outputs.len() ==> outputs[j].id != id,
        },
    decreases outputs.len() - from,
{
    if from < outputs.len() && outputs[from].id != id {
        lemma_output_position(outputs, id, from + 1);
    }
}

/// The outputs discovered so far.
pub struct OutputCaptureState {
    /// One entry per announced output, in the order of the announcements.
    pub outputs: Vec<OutputInfo>,
}

impl OutputCaptureState {
    /// The state of a discovery that has heard of no output yet.
    pub fn new() -> (s: OutputCaptureState)
        ensures
            s.outputs@ == Seq::<OutputInfo>::empty(),
    {
        OutputCaptureState { outputs: Vec::new() }
    }

    /// Takes the announcement of a global into the state. An output of
    /// version [`MIN_OUTPUT_VERSION`] or later gets an entry of its own, and
    /// the caller is told to bind it; anything else leaves the state as it is.
    pub fn registry_global(&mut self, name: u32, interface: &str, version: u32) -> (action:
        GlobalAction)
        ensures
            action == spec_global_action(interface@, version),
            action == GlobalAction::Bind ==> {
                &&& final(self).outputs@.len() == old(self).outputs@.len() + 1
                &&& final(self).outputs@.drop_last() == old(self).outputs@
                &&& is_fresh_output(final(self).outputs@.last(), name)
            },
            action != GlobalAction::Bind ==> final(self).outputs@ == old(self).outputs@,
    {
        if interface.to_owned() != "wl_output".to_owned() {
            return GlobalAction::Ignore;
        }
        if version < MIN_OUTPUT_VERSION {
            return GlobalAction::SkipOutdated;
        }
        self.outputs.push(
            OutputInfo {
                id: name,
                name: String::new(),
                description: String::new(),
                transform: Transform::Normal,
                scale: 1,
                dimensions: OutputPositioning { x: 0, y: 0, width: 0, height: 0 },
                mode: WlOutputMode { width: 0, height: 0 },
            },
        );
        GlobalAction::Bind
    }

    /// Position of the first output announced as `id`.
    pub fn position(&self, id: u32) -> (r: Option<usize>)
        ensures
            match r {
                Some(i) => output_position(self.outputs@, id, 0) == Some(i as int),
                None => output_position(self.outputs@, id, 0) is None,
            },
    {
        let mut i: usize = 0;
        while i < self.outputs.len()
            invariant
                0 <= i <= self.outputs.len(),
                output_position(self.outputs@, id, 0) == output_position(
                    self.outputs@,
                    id,
                    i as int,
                ),
            decreases self.outputs.len() - i,
        {
            if self.outputs[i].id == id {
                return Some(i);
            }
            i += 1;
        }
        None
    }

    /// Takes one event about the output announced as `id` into the state.
    /// Returns whether such an output is known; if none is, the state stays
    /// as it is.
    pub fn output_event(&mut self, id: u32, event: OutputEvent) -> (known: bool)
        ensures
            match output_position(old(self).outputs@, id, 0) {
                Some(i) => known && final(self).outputs@ == old(self).outputs@.update(
                    i,
                    apply_output_event(old(self).outputs@[i], event),
                ),
                None => !known && final(self).outputs@ == old(self).outputs@,
            },
    {
        proof {
            lemma_output_position(self.outputs@, id, 0);
        }
        let i = match self.position(id) {
            Some(i) => i,
            None => {
                return false;
            },
        };
        match event {
            OutputEvent::Name { name } => {
                self.outputs[i].name = name;
            },
            OutputEvent::Description { description } => {
                self.outputs[i].description = description;
            },
            OutputEvent::Mode { width, height } => {
                self.outputs[i].mode = WlOutputMode { width, height };
            },
            OutputEvent::Geometry { transform: Some(transform) } => {
                self.outputs[i].transform = transform;
            },
            OutputEvent::Scale { factor } => {
                self.outputs[i].scale = factor;
            },
            OutputEvent::Done => {},
            _ => {},
        }
        assert(self.outputs@ =~= old(self).outputs@.update(
            i as int,
            apply_output_event(old(self).outputs@[i as int], event),
        ));
        true
    }

    /// Takes one event of the output-position extension about the output at
    /// `index` into the state. Returns whether there is such an output; if
    /// there is none, the state stays as it is.
    pub fn xdg_output_event(&mut self, index: usize, event: XdgOutputEvent) -> (known: bool)
        ensures
            known == (index < old(self).outputs@.len()),
            known ==> final(self).outputs@ == old(self).outputs@.update(
                index as int,
                apply_xdg_output_event(old(self).outputs@[index as int], event),
            ),
            !known ==> final(self).outputs@ == old(self).outputs@,
    {
        if index >= self.outputs.len() {
            return false;
        }
        match event {
            XdgOutputEvent::LogicalPosition { x, y } => {
                self.outputs[index].dimensions.x = x;
                self.outputs[index].dimensions.y = y;
            },
            XdgOutputEvent::LogicalSize { width, height } => {
                self.outputs[index].dimensions.width = width;
                self.outputs[index].dimensions.height = height;
            },
            XdgOutputEvent::Other => {},
        }
        assert(self.outputs@ =~= old(self).outputs@.update(
            index as int,
            apply_xdg_output_event(old(self).outputs@[index as int], event),
        ));
        true
    }

    /// Ends the discovery: the outputs found, which replace any earlier
    /// list, or `None` where the compositor announced none, in which case
    /// there is nothing to capture.
    pub fn into_outputs(self) -> (r: Option<Vec<OutputInfo>>)
        ensures
            self.outputs@.len() == 0 ==> r is None,
            self.outputs@.len() > 0 ==> r == Some(self.outputs),
    {
        if self.outputs.len() == 0 {
            None
        } else {
            Some(self.outputs)
        }
    }
}

/// What a layer surface can tell its client.
#[derive(Debug, Copy, Clone, PartialEq, Eq, Structural)]
pub enum LayerSurfaceEvent {
    /// The compositor proposes a size; the client acknowledges with `serial`.
    Configure { serial: u32, width: u32, height: u32 },
    /// The surface was closed.
    Closed,
    /// Any other event.
    Other,
}

/// The outputs whose overlay surface the compositor has configured.
pub struct LayerShellState {
    /// Identities of the configured outputs.
    pub configured_outputs: HashSet<u32>,
}

impl View for LayerShellState {
    type V = Set<u32>;

    open spec fn view(&self) -> Set<u32> {
        self.configured_outputs@
    }
}

impl LayerShellState {
    /// The state in which no overlay surface is configured.
    pub fn new() -> (s: LayerShellState)
        ensures
            s@ == Set::<u32>::empty(),
    {
        LayerShellState { configured_outputs: HashSet::new() }
    }

    /// Takes one event of the overlay surface of `output` into the state. On
    /// `Configure` the output counts as configured, and the serial to
    /// acknowledge is returned; any other event changes nothing and asks for
    /// no acknowledgment.
    pub fn event(&mut self, output: u32, event: LayerSurfaceEvent) -> (ack: Option<u32>)
        ensures
            match event {
                LayerSurfaceEvent::Configure { serial, .. } => {
                    &&& ack == Some(serial)
                    &&& final(self)@ == old(self)@.insert(output)
                },
                _ => ack is None && final(self)@ == old(self)@,
            },
    {
        match event {
            LayerSurfaceEvent::Configure { serial, width: _, height: _ } => {
                self.configured_outputs.insert(output);
                Some(serial)
            },
            LayerSurfaceEvent::Closed => None,
            LayerSurfaceEvent::Other => None,
        }
    }

    /// Whether the overlay surface of `output` has been configured, so that
    /// a buffer may be attached to it and committed.
    pub fn is_configured(&self, output: u32) -> (r: bool)
        ensures
            r == self@.contains(output),
    {
        self.configured_outputs.contains(&output)
    }
}

/// How a frame copy ended.
#[derive(Debug, Copy, Clone, PartialEq, Eq, Structural)]
pub enum FrameState {
    /// The compositor reported that the copy could not be performed.
    Failed,
    /// The compositor reported that the buffer holds the frame.
    Finished,
}

/// What the compositor can tell about one requested frame.
#[derive(Debug, Copy, Clone, PartialEq, Eq, Structural)]
pub enum FrameEvent {
    /// One pixel layout in which the frame can be had.
    Buffer { format: u32, width: u32, height: u32, stride: u32 },
    /// Flags of the frame; informational.
    Flags,
    /// The copy succeeded.
    Ready,
    /// The copy could not be performed.
    Failed,
    /// A damaged area of the frame; informational.
    Damage,
    /// A GPU buffer layout; informational.
    LinuxDmabuf,
    /// Every layout has been offered.
    BufferDone,
}

/// Where the exchange for one frame stands.
#[derive(Debug, Copy, Clone, PartialEq, Eq, Structural)]
pub enum FramePhase {
    /// The frame was requested and nothing has been heard yet.
    Requested,
    /// Layouts are being offered.
    AwaitingFormats,
    /// Every layout has been offered; the copy can be made.
    BufferReady,
    /// The copy succeeded.
    Finished,
    /// The copy could not be performed.
    Failed,
}

/// Mathematical content of a [`CaptureFrameState`].
pub struct FrameModel {
    /// Layouts offered so far, in the order of their arrival.
    pub formats: Seq<FrameFormat>,
    /// How the copy ended, once it has.
    pub state: Option<FrameState>,
    /// Whether every layout has been offered.
    pub buffer_done: bool,
}

/// State of the exchange for one frame.
pub struct CaptureFrameState {
    /// Layouts offered so far, in the order of their arrival.
    pub formats: Vec<FrameFormat>,
    /// How the copy ended, once it has.
    pub state: Option<FrameState>,
    /// Whether every layout has been offered.
    pub buffer_done: bool,
}

impl View for CaptureFrameState {
    type V = FrameModel;

    open spec fn view(&self) -> FrameModel {
        FrameModel { formats: self.formats@, state: self.state, buffer_done: self.buffer_done }
    }
}

/// The first offered layout, from position `from` on, whose format can be captured.
pub open spec fn first_capture_format(formats: Seq<FrameFormat>, from: int) -> Option<FrameFormat>
    decreases formats.len() - from,
{
    if from < 0 || from >= formats.len() {
        None
    } else if spec_is_capture_format(formats[from].format) {
        Some(formats[from])
    } else {
        first_capture_format(formats, from + 1)
    }
}

impl FrameModel {
    /// The exchange before any event.
    pub open spec fn initial() -> FrameModel {
        FrameModel { formats: Seq::empty(), state: None, buffer_done: false }
    }

    /// The exchange after one more event. An outcome, once reached, stays.
    pub open spec fn apply(self, event: FrameEvent) -> FrameModel {
        match event {
            FrameEvent::Buffer { format, width, height, stride } => FrameModel {
                formats: self.formats.push(FrameFormat { format, width, height, stride }),
                ..self
            },
            FrameEvent::Ready => FrameModel {
                state: if self.state is None {
                    Some(FrameState::Finished)
                } else {
                    self.state
                },
                ..self
            },
            FrameEvent::Failed => FrameModel {
                state: if self.state is None {
                    Some(FrameState::Failed)
                } else {
                    self.state
                },
                ..self
            },
            FrameEvent::BufferDone => FrameModel { buffer_done: true, ..self },
            FrameEvent::Flags | FrameEvent::Damage | FrameEvent::LinuxDmabuf => self,
        }
    }

    /// The exchange after a run of events, first to last.
    pub open spec fn replay(self, events: Seq<FrameEvent>) -> FrameModel
        decreases events.len(),
    {
        if events.len() == 0 {
            self
        } else {
            self.replay(events.drop_last()).apply(events.last())
        }
    }

    /// Where the exchange stands.
    pub open spec fn phase(self) -> FramePhase {
        match self.state {
            Some(FrameState::Failed) => FramePhase::Failed,
            Some(FrameState::Finished) => FramePhase::Finished,
            None => if self.buffer_done {
                FramePhase::BufferReady
            } else if self.formats.len() > 0 {
                FramePhase::AwaitingFormats
            } else {
                FramePhase::Requested
            },
        }
    }

    /// The layout to capture in: the first offered one that can be captured.
    pub open spec fn selected_format(self) -> Option<FrameFormat> {
        first_capture_format(self.formats, 0)
    }

    /// What the negotiation has come to: nothing yet, a layout, or a failure.
    pub open spec fn negotiation(self) -> Option<Result<FrameFormat, Error>> {
        if self.state == Some(FrameState::Failed) {
            Some(Err(Error::FramecopyFailed))
        } else if !self.buffer_done {
            None
        } else {
            match self.selected_format() {
                Some(format) => Some(Ok(format)),
                None => Some(Err(Error::NoSupportedBufferFormat)),
            }
        }
    }

    /// What the copy has come to: nothing yet, success, or a failure.
    pub open spec fn outcome(self) -> Option<Result<(), Error>> {
        match self.state {
            None => None,
            Some(FrameState::Finished) => Some(Ok(())),
            Some(FrameState::Failed) => Some(Err(Error::FramecopyFailed)),
        }
    }
}

/// The layout that [`first_capture_format`] names is offered at or after
/// `from`, can be captured, and nothing offered between `from` and it can;
/// where it names none, nothing offered from `from` on can be captured.
pub proof fn lemma_first_capture_format(formats: Seq<FrameFormat>, from: int)
    requires
        0 <= from,
    ensures
        match first_capture_format(formats, from) {
            Some(format) => exists|i: int|
                {
                    &&& from <= i < formats.len()
                    &&& #[trigger] formats[i] == format
                    &&& spec_is_capture_format(format.format)
                    &&& forall|j: int| from <= j < i ==> !spec_is_capture_format(formats[j].format)
                },
            None => forall|j: int|
                from <= j < formats.len() ==> !spec_is_capture_format(formats[j].format),
        },
    decreases formats.len() - from,
{
    if from < formats.len() && !spec_is_capture_format(formats[from].format) {
        lemma_first_capture_format(formats, from + 1);
    }
}

/// Law: an exchange in which no offered layout can be captured never names a
/// layout to allocate a buffer for; once every layout has been offered, and
/// unless the compositor has reported a failure of its own, the negotiation
/// fails with [`Error::NoSupportedBufferFormat`].
pub proof fn lemma_no_capture_format_allocates_nothing(m: FrameModel)
    requires
        forall|i: int| 0 <= i < m.formats.len() ==> !spec_is_capture_format(m.formats[i].format),
    ensures
        !(m.negotiation() matches Some(Ok(_))),
        m.buffer_done && m.state != Some(FrameState::Failed) ==> m.negotiation() == Some(
            Err::<FrameFormat, Error>(Error::NoSupportedBufferFormat),
        ),
{
    lemma_first_capture_format(m.formats, 0);
}

/// A run of events without `Ready` never ends in `Finished`.
proof fn lemma_no_ready_not_finished(events: Seq<FrameEvent>)
    requires
        forall|j: int| 0 <= j < events.len() ==> events[j] != FrameEvent::Ready,
    ensures
        FrameModel::initial().replay(events).state != Some(FrameState::Finished),
    decreases events.len(),
{
    if events.len() > 0 {
        lemma_no_ready_not_finished(events.drop_last());
    }
}

/// Law: when `Failed` arrives before any `Ready`, the exchange ends in
/// failure whatever else arrives: the negotiation and the copy both report
/// [`Error::FramecopyFailed`], and no buffer is handed over.
pub proof fn lemma_failed_before_ready_is_error(events: Seq<FrameEvent>, i: int)
    requires
        0 <= i < events.len(),
        events[i] == FrameEvent::Failed,
        forall|j: int| 0 <= j < i ==> events[j] != FrameEvent::Ready,
    ensures
        FrameModel::initial().replay(events).state == Some(FrameState::Failed),
        FrameModel::initial().replay(events).outcome() == Some(
            Err::<(), Error>(Error::FramecopyFailed),
        ),
        FrameModel::initial().replay(events).negotiation() == Some(
            Err::<FrameFormat, Error>(Error::FramecopyFailed),
        ),
    decreases events.len(),
{
    if i == events.len() - 1 {
        lemma_no_ready_not_finished(events.drop_last());
    } else {
        lemma_failed_before_ready_is_error(events.drop_last(), i);
    }
}

impl CaptureFrameState {
    /// The state of a frame that has just been requested.
    pub fn new() -> (s: CaptureFrameState)
        ensures
            s@ == FrameModel::initial(),
    {
        CaptureFrameState { formats: Vec::new(), state: None, buffer_done: false }
    }

    /// Takes one event of the compositor into the state.
    pub fn event(&mut self, event: FrameEvent)
        ensures
            final(self)@ == old(self)@.apply(event),
    {
        match event {
            FrameEvent::Buffer { format, width, height, stride } => {
                self.formats.push(FrameFormat { format, width, height, stride });
            },
            FrameEvent::Flags => {},
            FrameEvent::Ready => {
                if self.state.is_none() {
                    self.state = Some(FrameState::Finished);
                }
            },
            FrameEvent::Failed => {
                if self.state.is_none() {
                    self.state = Some(FrameState::Failed);
                }
            },
            FrameEvent::Damage => {},
            FrameEvent::LinuxDmabuf => {},
            FrameEvent::BufferDone => {
                self.buffer_done = true;
            },
        }
    }

    /// Takes a run of events into the state, first to last.
    pub fn replay(&mut self, events: &Vec<FrameEvent>)
        ensures
            final(self)@ == old(self)@.replay(events@),
    {
        let mut i: usize = 0;
        while i < events.len()
            invariant
                0 <= i <= events.len(),
                self@ == old(self)@.replay(events@.take(i as int)),
            decreases events.len() - i,
        {
            proof {
                assert(events@.take(i + 1).drop_last() =~= events@.take(i as int));
            }
            self.event(events[i]);
            i += 1;
        }
        assert(events@.take(i as int) =~= events@);
    }

    /// Where the exchange stands.
    pub fn phase(&self) -> (p: FramePhase)
        ensures
            p == self@.phase(),
    {
        match self.state {
            Some(FrameState::Failed) => FramePhase::Failed,
            Some(FrameState::Finished) => FramePhase::Finished,
            None => if self.buffer_done {
                FramePhase::BufferReady
            } else if self.formats.len() > 0 {
                FramePhase::AwaitingFormats
            } else {
                FramePhase::Requested
            },
        }
    }

    /// Picks the layout to capture in: the first offered one whose format can
    /// be captured. Fails when no offered layout can.
    pub fn select_format(&self) -> (r: Result<FrameFormat, Error>)
        ensures
            match self@.selected_format() {
                Some(format) => r == Ok::<FrameFormat, Error>(format),
                None => r == Err::<FrameFormat, Error>(Error::NoSupportedBufferFormat),
            },
    {
        let mut i: usize = 0;
        while i < self.formats.len()
            invariant
                0 <= i <= self.formats.len(),
                first_capture_format(self.formats@, 0) == first_capture_format(
                    self.formats@,
                    i as int,
                ),
            decreases self.formats.len() - i,
        {
            if is_capture_format(self.formats[i].format) {
                return Ok(self.formats[i]);
            }
            i += 1;
        }
        Err(Error::NoSupportedBufferFormat)
    }

    /// Decides, while layouts are being offered, what to do next: `None` to
    /// wait for more events, a layout to allocate a buffer of
    /// [`FrameFormat::byte_size`] bytes for and to request the copy into, or
    /// a failure to give the capture up with, in which case no buffer is to
    /// be allocated.
    pub fn negotiate(&self) -> (r: Option<Result<FrameFormat, Error>>)
        ensures
            r == self@.negotiation(),
    {
        if let Some(FrameState::Failed) = self.state {
            return Some(Err(Error::FramecopyFailed));
        }
        if !self.buffer_done {
            return None;
        }
        Some(self.select_format())
    }

    /// Decides, once the copy has been requested, what to do next: `None` to
    /// wait for more events, `Ok` to hand the filled buffer over, or a
    /// failure, in which case no buffer is handed over.
    pub fn outcome(&self) -> (r: Option<Result<(), Error>>)
        ensures
            r == self@.outcome(),
    {
        match self.state {
            None => None,
            Some(FrameState::Finished) => Some(Ok(())),
            Some(FrameState::Failed) => Some(Err(Error::FramecopyFailed)),
        }
    }
}

} // verus!
