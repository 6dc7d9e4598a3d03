//! The command line's options as plain values, with the defaults the
//! command line documents.
use vstd::prelude::*;

verus! {

/// Declares `std::path::PathBuf`, which options and configurations carry
/// through without looking inside.
#[verifier::external_type_specification]
#[verifier::external_body]
pub struct ExPathBuf(std::path::PathBuf);

/// Options of the experimental kernel sources.
#[derive(Debug)]
pub struct EbpfArgs {
    pub source: EbpfSource,
}

/// The kernel source to render.
#[derive(Debug)]
pub enum EbpfSource {
    /// Live Linux scheduler tracepoints.
    Scheduler(SchedulerArgs),
    /// Live TCP retransmits and resets.
    Tcp(TcpArgs),
}

/// Options of the scheduler source.
#[derive(Debug)]
pub struct SchedulerArgs {
    /// Where to save normalized scheduler events as NDJSON.
    pub record: Option<std::path::PathBuf>,
    pub visual: VisualArgs,
}

/// Options of the TCP source.
#[derive(Debug)]
pub struct TcpArgs {
    /// Where to save normalized TCP pathology events as NDJSON.
    pub record: Option<std::path::PathBuf>,
    pub visual: VisualArgs,
}

/// Rendering vocabulary.
#[derive(Clone, Copy, Debug, PartialEq, Eq, Structural)]
pub enum DisplayMode {
    Ansi,
    Ascii,
}

impl Default for DisplayMode {
    fn default() -> (m: Self)
        ensures
            m == DisplayMode::Ansi,
    {
        DisplayMode::Ansi
    }
}

/// Temporal view.
#[derive(Clone, Copy, Debug, PartialEq, Eq, Structural)]
pub enum ViewKind {
    Weather,
    Waterfall,
}

impl Default for ViewKind {
    fn default() -> (v: Self)
        ensures
            v == ViewKind::Weather,
    {
        ViewKind::Weather
    }
}

/// Coherent color palette.
#[derive(Clone, Copy, Debug, PartialEq, Eq, Structural)]
pub enum Theme {
    Phosphor,
    Amber,
    Cold,
    Monochrome,
}

impl Default for Theme {
    fn default() -> (t: Self)
        ensures
            t == Theme::Phosphor,
    {
        Theme::Phosphor
    }
}

/// The smallest snapshot width accepted.
pub const MIN_SNAPSHOT_WIDTH: u16 = 1;

/// The largest snapshot width accepted.
pub const MAX_SNAPSHOT_WIDTH: u16 = 500;

/// The smallest snapshot height accepted.
pub const MIN_SNAPSHOT_HEIGHT: u16 = 1;

/// The largest snapshot height accepted.
pub const MAX_SNAPSHOT_HEIGHT: u16 = 200;

/// Visual options shared by every source.
#[derive(Clone, Copy, Debug, PartialEq, Eq, Structural)]
pub struct VisualArgs {
    pub mode: DisplayMode,
    pub view: ViewKind,
    pub theme: Theme,
    /// Render one plain frame and exit.
    pub snapshot: bool,
    /// Snapshot width (ignored interactively), 1 to 500.
    pub width: u16,
    /// Snapshot height (ignored interactively), 1 to 200.
    pub height: u16,
}

impl Default for VisualArgs {
    fn default() -> (v: Self)
        ensures
            v == (VisualArgs {
                mode: DisplayMode::Ansi,
                view: ViewKind::Weather,
                theme: Theme::Phosphor,
                snapshot: false,
                width: 100,
                height: 30,
            }),
    {
        VisualArgs {
            mode: DisplayMode::Ansi,
            view: ViewKind::Weather,
            theme: Theme::Phosphor,
            snapshot: false,
            width: 100,
            height: 30,
        }
    }
}

impl VisualArgs {
    /// Are the snapshot dimensions within the accepted ranges?
    pub fn dimensions_valid(&self) -> (b: bool)
        ensures
            b == (MIN_SNAPSHOT_WIDTH <= self.width <= MAX_SNAPSHOT_WIDTH && MIN_SNAPSHOT_HEIGHT
                <= self.height <= MAX_SNAPSHOT_HEIGHT),
    {
        MIN_SNAPSHOT_WIDTH <= self.width && self.width <= MAX_SNAPSHOT_WIDTH && MIN_SNAPSHOT_HEIGHT
            <= self.height && self.height <= MAX_SNAPSHOT_HEIGHT
    }
}

/// The default seed of the demo stream.
pub const DEFAULT_DEMO_SEED: u64 = 7;

/// Options of the demo source.
#[derive(Clone, Copy, Debug, PartialEq, Eq, Structural)]
pub struct DemoArgs {
    /// Deterministic stream seed.
    pub seed: u64,
    pub visual: VisualArgs,
}

/// Formats of standard input.
#[derive(Clone, Copy, Debug, PartialEq, Eq, Structural)]
pub enum InputFormat {
    Lines,
    Ndjson,
    TsharkTsv,
}

/// Options of the standard-input source.
#[derive(Debug)]
pub struct StdinArgs {
    pub format: InputFormat,
    /// Where to save normalized events as NDJSON.
    pub record: Option<std::path::PathBuf>,
    pub visual: VisualArgs,
}

} // verus!
