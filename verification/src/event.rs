//! The kinds of user and audio-layer events the handlers react to, and the
//! commands the handlers hand on to the audio layer, the track processors and
//! the services of the application.
use vstd::prelude::*;
use crate::domain::ItemId;

verus! {

/// Which automation the automation editor edits: the track's or the selected riff's.
#[derive(Clone, Copy, PartialEq, Eq, Structural, Debug)]
pub enum AutomationEditType {
    Track,
    Riff,
}

/// What the automation view shows, as the user picks it.
#[derive(Clone, Copy, PartialEq, Eq, Structural, Debug)]
pub enum ShowType {
    Velocity,
    Controller,
    PitchBend,
    InstrumentParameter,
    EffectParameter,
    NoteExpression,
}

/// What the automation view shows, as the state records it.
#[derive(Clone, Copy, PartialEq, Eq, Structural, Debug)]
pub enum AutomationViewMode {
    NoteVelocities,
    Controllers,
    PitchBend,
    Instrument,
    Effect,
    NoteExpression,
}

#[derive(Clone, Copy, PartialEq, Eq, Structural, Debug)]
pub enum OperationModeType {
    Add,
    Delete,
    Change,
    PointMode,
    Select,
    DeselectAll,
    SelectAll,
    Cut,
    Copy,
    Paste,
    Undo,
    Redo,
}

/// The view currently shown in the main window.
#[derive(Clone, Copy, PartialEq, Eq, Structural, Debug)]
pub enum CurrentView {
    Track,
    RiffSet,
    RiffSequence,
    RiffGrid,
    RiffArrangement,
}

#[derive(Clone, Copy, PartialEq, Eq, Structural, Debug)]
pub enum TranslateDirection {
    Up,
    Down,
    Left,
    Right,
}

/// What is being played.
#[derive(Clone, Copy, PartialEq, Eq, Structural, Debug)]
pub enum PlayMode {
    Song,
    RiffSet,
    RiffSequence,
    RiffGrid,
    RiffArrangement,
}

#[derive(Clone, Copy, PartialEq, Eq, Structural, Debug)]
pub enum MasterChannelChangeType {
    VolumeChange(i32),
    PanChange(i32),
}

/// The MPE note id that the piano roll gives to notes.
#[derive(Clone, Copy, PartialEq, Eq, Structural, Debug)]
pub enum MidiPolyphonicExpressionNoteId {
    ALL,
    NoteId(i32),
}

impl MidiPolyphonicExpressionNoteId {
    /// The note id that notes carry: -1 stands for all notes.
    pub open spec fn spec_note_id(self) -> i32 {
        match self {
            MidiPolyphonicExpressionNoteId::ALL => -1i32,
            MidiPolyphonicExpressionNoteId::NoteId(n) => n,
        }
    }

    pub fn note_id(&self) -> (r: i32)
        ensures
            r == self.spec_note_id(),
    {
        match self {
            MidiPolyphonicExpressionNoteId::ALL => -1i32,
            MidiPolyphonicExpressionNoteId::NoteId(n) => *n,
        }
    }
}

/// A change to the loops of the song.
pub enum LoopChangeType {
    LoopOn,
    LoopOff,
    ActiveLoopChanged(Option<ItemId>),
    LoopLimitLeftChanged(u64),
    LoopLimitRightChanged(u64),
    Added(String),
    Deleted,
    NameChanged(String),
}

/// An event for a track's background processor.
#[derive(Clone, Copy, PartialEq, Eq, Structural, Debug)]
pub enum TrackBackgroundProcessorInwardEvent {
    PlayNoteImmediate(i32, i32),
    StopNoteImmediate(i32, i32),
    LoopExtents(i32, i32),
    Loop(bool),
    Kill,
    Tempo(u32),
    SetBlockPosition(i32),
}

/// An event for the audio layer.
#[derive(Clone, Copy, PartialEq, Eq, Structural, Debug)]
pub enum AudioLayerInwardEvent {
    Volume(i32),
    Pan(i32),
    Shutdown,
    Tempo(u32),
    BlockSize(i32),
    SampleRate(i32),
    ExtentsChange(i32),
}

/// How the audio layer runs.
#[derive(Clone, Copy, PartialEq, Eq, Structural, Debug)]
pub enum AudioMode {
    Coast,
    AudioOut,
    Render,
}

#[derive(Clone, Copy, PartialEq, Eq, Structural, Debug)]
pub enum AudioLayerEvent {
    AudioLayerInward(AudioLayerInwardEvent),
    AudioMode(AudioMode),
}

/// Work that a handler asks the application to carry out, in order.
pub enum Command {
    /// Send an event to the background processor of a track.
    ToTrack(ItemId, TrackBackgroundProcessorInwardEvent),
    /// Send an event to the audio layer.
    ToAudioLayer(AudioLayerEvent),
    /// Close every track's processing.
    CloseAllTracks,
    /// Reset the playing state.
    ResetState,
    /// Start the processing of a track, at a tempo.
    InitTrack(ItemId, u32),
    /// Rewire the senders and receivers of the track processors.
    UpdateTrackSendersAndReceivers,
    /// Wait the given number of milliseconds.
    Pause(u32),
    Save,
    SaveAs(String),
    LoadFromFile(String),
    ExportMidiFile(String),
    ExportRiffsToMidiFile(String),
    ExportRiffsToSeparateMidiFiles(String),
    ExportWaveFile(String),
    Undo,
    Redo,
    TransportStop,
    TransportPlay,
    TransportMoveForward,
    TransportMoveBack,
    /// Play a riff arrangement from a position (in thousandths of a beat).
    PlayRiffArrangement(ItemId, i64),
    /// Replace what a track plays in the playing riff set (riff set, track).
    PlayRiffSetUpdateTrackAsRiff(ItemId, ItemId),
    /// Copy a riff arrangement onto the track grid at a position.
    CopyRiffArrangementToPosition(ItemId, i64),
    /// Register a MIDI output port for a track.
    RegisterMidiOutPort(ItemId),
    /// Show a message to the user.
    ShowMessage(MessageLevel, String),
}

/// The kinds of notification.
#[derive(Clone, Copy, PartialEq, Eq, Structural, Debug)]
pub enum NotificationType {
    Info,
    Warning,
    Error,
}

/// How a message to the user is shown.
#[derive(Clone, Copy, PartialEq, Eq, Structural, Debug)]
pub enum MessageLevel {
    Info,
    Warning,
    Error,
}

/// A MIDI message from the audio layer: its three bytes and its offset in frames
/// from the start of the current block.
#[derive(Clone, Copy, PartialEq, Eq, Structural, Debug)]
pub struct MidiMessage {
    pub status: u8,
    pub data1: u8,
    pub data2: u8,
    pub delta_frames: i32,
}

} // verus!
