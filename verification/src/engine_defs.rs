//! Engine-facing definitions: reports from the protocol front-ends, the
//! control vocabulary sent back to them, search parameters, and settings.

use vstd::prelude::*;
use crate::movedefs::{Move, MoveList};

verus! {

pub struct CommType;

impl CommType {
    pub const XBOARD: &'static str = "xboard";

    pub const UCI: &'static str = "uci";
}

pub struct ErrFatal;

impl ErrFatal {
    pub const CREATE_COMM: &'static str = "Comm creation failed.";

    pub const NEW_GAME: &'static str = "Setting up new game failed.";

    pub const LOCK: &'static str = "Lock failed.";

    pub const READ_IO: &'static str = "Reading I/O failed.";

    pub const HANDLE: &'static str = "Broken handle.";

    pub const THREAD: &'static str = "Thread has failed.";

    pub const CHANNEL: &'static str = "Broken channel.";

    pub const NO_INFO_RX: &'static str = "No incoming Info channel.";
}

pub struct ErrNormal;

impl ErrNormal {
    pub const NOT_LEGAL: &'static str = "This is not a legal move in this position.";

    pub const NOT_INT: &'static str = "The value given was not an integer.";

    pub const FEN_FAILED: &'static str = "Setting up FEN failed. Board not changed.";
}

#[derive(PartialEq, Eq, Structural, Clone, Copy, Debug)]
pub enum Quiet {
    No,
    Whisper,
    Silent,
}

pub struct XBoardFeatures {
    pub done: bool,
    pub ping: bool,
    pub setboard: bool,
    pub usermove: bool,
    pub debug: bool,
    pub sigint: bool,
    pub sigterm: bool,
}

pub struct XBoardStat01 {
    pub time: u128,
    pub nodes: usize,
    pub depth: u8,
    pub moves_left: u8,
    pub total_moves: u8,
    pub curr_move: Move,
}

impl XBoardStat01 {
    pub fn new() -> (r: XBoardStat01)
        ensures
            r.time == 0,
            r.nodes == 0,
            r.depth == 0,
            r.moves_left == 0,
            r.total_moves == 0,
            r.curr_move.data == 0,
    {
        XBoardStat01 {
            time: 0,
            nodes: 0,
            depth: 0,
            moves_left: 0,
            total_moves: 0,
            curr_move: Move { data: 0 },
        }
    }

    /// Complete enough to answer an analysis-statistics request.
    pub fn is_complete(&self) -> (r: bool)
        ensures
            r == (self.time != 0 && self.nodes != 0 && self.depth != 0 && self.curr_move.data
                != 0),
    {
        self.time != 0 && self.nodes != 0 && self.depth != 0 && !self.curr_move.is_empty()
    }
}

pub struct XBoardSpecifics {
    pub features: XBoardFeatures,
    pub stat01: XBoardStat01,
}

pub struct Settings {
    pub threads: usize,
    pub quiet: Quiet,
    pub tt_size: usize,
}

pub enum UiElement {
    Spin,
    Button,
}

pub struct EngineOption {
    pub name: &'static str,
    pub ui_element: UiElement,
    pub default: Option<String>,
    pub min: Option<String>,
    pub max: Option<String>,
}

impl EngineOption {
    pub fn new(
        name: &'static str,
        ui_element: UiElement,
        default: Option<String>,
        min: Option<String>,
        max: Option<String>,
    ) -> (r: EngineOption)
        ensures
            r.name == name,
    {
        EngineOption { name, ui_element, default, min, max }
    }
}

#[derive(Clone, Debug)]
pub enum EngineOptionName {
    Hash(String),
    ClearHash,
    Nothing,
}

pub struct EngineOptionDefaults;

impl EngineOptionDefaults {
    pub const HASH_DEFAULT: &'static str = "32";

    pub const HASH_MIN: &'static str = "0";

    pub const HASH_MAX_64_BIT: &'static str = "65536";

    pub const HASH_MAX_32_BIT: &'static str = "2048";
}

/// Reports parsed from the XBoard protocol input.
#[derive(Clone, Debug)]
pub enum XBoardReport {
    ProtoVer(u8),
    Ping(i64),
    Accepted(String),
    SetBoard(String),
    New,
    Question,
    Post,
    NoPost,
    Analyze,
    Dot,
    Exit,
    Quit,
    XBoard,
    Random,
    Easy,
    Hard,
    Board,
    History,
    Legal,
    Eval,
    Help,
    Unknown(String),
}

/// Reports parsed from the UCI protocol input.
#[derive(Clone, Debug)]
pub enum UciReport {
    Uci,
    IsReady,
    UciNewGame,
    SetOption(EngineOptionName),
    Position(String, Vec<String>),
    GoInfinite,
    GoDepth(u8),
    GoMoveTime(u128),
    GoNodes(usize),
    GoGameTime(GameTime),
    Stop,
    Quit,
    Board,
    Eval,
    Help,
    Unknown,
}

/// A report from either protocol front-end.
#[derive(Clone, Debug)]
pub enum CommReport {
    Uci(UciReport),
    XBoard(XBoardReport),
}

impl CommReport {
    pub fn is_valid(&self) -> (r: bool)
        ensures
            r,
    {
        true
    }
}

/// Instructions from the engine to a protocol front-end.
pub enum CommControl {
    Quit,
    Identify,
    Ready,
    SearchSummary(SearchSummary),
    SearchCurrMove(SearchCurrentMove),
    SearchStats(SearchStats),
    AnalyzeStat01(XBoardStat01),
    InfoString(String),
    BestMove(Move),
    Pong(i64),
    Message(String),
    Empty,
    PrintBoard,
    PrintHistory,
    PrintEval(i16),
    PrintLegal(Box<MoveList>),
    PrintHelp,
}

#[derive(Clone, Copy, PartialEq, Eq, Structural, Debug)]
pub enum SearchMode {
    Depth,
    MoveTime,
    Nodes,
    GameTime,
    Infinite,
    Nothing,
}

/// Remaining clock time, increments, and moves to go, as the protocol
/// reports them.
#[derive(Clone, Copy, Debug)]
pub struct GameTime {
    pub wtime: u128,
    pub btime: u128,
    pub winc: u128,
    pub binc: u128,
    pub moves_to_go: Option<u16>,
}

impl GameTime {
    pub fn new() -> (r: GameTime)
        ensures
            r.wtime == 0,
            r.btime == 0,
            r.winc == 0,
            r.binc == 0,
            r.moves_to_go is None,
    {
        GameTime { wtime: 0, btime: 0, winc: 0, binc: 0, moves_to_go: None }
    }
}

#[derive(Clone, Copy, Debug)]
pub struct SearchParams {
    pub depth: u8,
    pub move_time: u128,
    pub nodes: usize,
    pub game_time: GameTime,
    pub search_mode: SearchMode,
}

impl SearchParams {
    pub fn new() -> (r: SearchParams)
        ensures
            r.search_mode == SearchMode::Nothing,
    {
        SearchParams {
            depth: 0,
            move_time: 0,
            nodes: 0,
            game_time: GameTime::new(),
            search_mode: SearchMode::Nothing,
        }
    }
}

#[derive(Clone, Copy, PartialEq, Eq, Structural, Debug)]
pub enum SearchTerminate {
    Stop,
    Quit,
    Nothing,
}

#[derive(Clone, Copy)]
pub enum SearchControl {
    Start(SearchParams),
    Stop,
    Quit,
    Nothing,
}

pub struct SearchSummary {
    pub depth: u8,
    pub time: u128,
    pub cp: i16,
    pub nodes: usize,
    pub nps: usize,
    pub pv: Vec<Move>,
}

#[derive(Clone, Copy)]
pub struct SearchCurrentMove {
    pub curr_move: Move,
    pub curr_move_number: u8,
}

#[derive(Clone, Copy)]
pub struct SearchStats {
    pub time: u128,
    pub nodes: usize,
    pub nps: usize,
}

pub enum SearchReport {
    Finished(Move),
    SearchSummary(SearchSummary),
    SearchCurrentMove(SearchCurrentMove),
    SearchStats(SearchStats),
}

/// Information arriving at the engine thread.
pub enum Information {
    Comm(CommReport),
    Search(SearchReport),
}

pub const INF: i16 = 25000;

pub const CHECKMATE: i16 = 25000;

pub const DRAW: i16 = 0;

pub const STALEMATE: i16 = 0;

/// Milliseconds subtracted from every time budget for protocol latency.
pub const OVERHEAD: u128 = 25;

} // verus!
