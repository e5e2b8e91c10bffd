//! Terminals: window sizes, modes and the environment of the shell.

use std::collections::BTreeMap;

use vstd::prelude::*;
use vstd::std_specs::iter::IteratorSpec;

use crate::channels::{Mode, PtyReq, WindowChange};
use crate::named::cow_text;
use crate::session::connections::env_view;

verus! {

/// The dimensions of a terminal as the system takes them.
#[derive(Clone, Copy, Debug, PartialEq, Eq, Structural)]
pub struct WindowSize {
    /// Width in columns.
    pub cols: u16,
    /// Height in rows.
    pub rows: u16,
    /// Width in pixels.
    pub width_px: u16,
    /// Height in pixels.
    pub height_px: u16,
}

/// The dimensions that a client has reported, of each of which the system takes the lower 16 bits.
pub fn window_size(size: &WindowChange) -> (r: WindowSize)
    ensures
        r.cols == size.cols % 0x1_0000,
        r.rows == size.rows % 0x1_0000,
        r.width_px == size.width_px % 0x1_0000,
        r.height_px == size.height_px % 0x1_0000,
{
    WindowSize {
        cols: (size.cols % 0x1_0000) as u16,
        rows: (size.rows % 0x1_0000) as u16,
        width_px: (size.width_px % 0x1_0000) as u16,
        height_px: (size.height_px % 0x1_0000) as u16,
    }
}

/// The dimensions of the terminal that a client has asked for.
pub fn requested_size(req: &PtyReq<'_>) -> (r: WindowSize)
    ensures
        r.cols == req@.cols % 0x1_0000,
        r.rows == req@.rows % 0x1_0000,
        r.width_px == req@.width_px % 0x1_0000,
        r.height_px == req@.height_px % 0x1_0000,
{
    window_size(
        &WindowChange {
            cols: req.cols,
            rows: req.rows,
            width_px: req.width_px,
            height_px: req.height_px,
        },
    )
}

/// The special characters of a terminal.
#[derive(Clone, Copy, Debug, PartialEq, Eq, Structural)]
pub enum SpecialCode {
    /// `VINTR`
    Intr,
    /// `VQUIT`
    Quit,
    /// `VERASE`
    Erase,
    /// `VKILL`
    Kill,
    /// `VEOF`
    Eof,
    /// `VEOL`
    Eol,
    /// `VEOL2`
    Eol2,
    /// `VSTART`
    Start,
    /// `VSTOP`
    Stop,
    /// `VSUSP`
    Susp,
    /// `VDSUSP`
    DSusp,
    /// `VREPRINT`
    Reprint,
    /// `VWERASE`
    WErase,
    /// `VLNEXT`
    LNext,
    /// `VDISCARD`
    Discard,
    /// `VSWTCH`
    Swtch,
    /// `VSTATUS`
    Status,
}

/// The flags of a terminal.
#[derive(Clone, Copy, Debug, PartialEq, Eq, Structural)]
pub enum TerminalFlag {
    /// The input mode `IGNPAR`.
    IgnPar,
    /// The input mode `PARMRK`.
    ParMrk,
    /// The input mode `INPCK`.
    INPck,
    /// The input mode `ISTRIP`.
    IStrip,
    /// The input mode `INLCR`.
    INlCr,
    /// The input mode `IGNCR`.
    IgnCr,
    /// The input mode `ICRNL`.
    ICrNl,
    /// The input mode `IUCLC`.
    IUcLc,
    /// The input mode `IXON`.
    IxOn,
    /// The input mode `IXANY`.
    IxAny,
    /// The input mode `IXOFF`.
    IxOff,
    /// The input mode `IMAXBEL`.
    IMaxBel,
    /// The input mode `IUTF8`.
    IUtf8,
    /// The local mode `ISIG`.
    ISig,
    /// The local mode `ICANON`.
    ICanon,
    /// The local mode `XCASE`.
    XCase,
    /// The local mode `ECHO`.
    Echo,
    /// The local mode `ECHOE`.
    EchoE,
    /// The local mode `ECHOK`.
    EchoK,
    /// The local mode `ECHONL`.
    EchoNl,
    /// The local mode `NOFLSH`.
    NoFlsh,
    /// The local mode `TOSTOP`.
    TOStop,
    /// The local mode `IEXTEN`.
    IExten,
    /// The local mode `ECHOCTL`.
    EchoCtl,
    /// The local mode `ECHOKE`.
    EchoKe,
    /// The local mode `PENDIN`.
    Pendin,
    /// The output mode `OPOST`.
    OPost,
    /// The output mode `OLCUC`.
    OLcUc,
    /// The output mode `ONLCR`.
    ONlCr,
    /// The output mode `OCRNL`.
    OCrNl,
    /// The output mode `ONOCR`.
    ONoCr,
    /// The output mode `ONLRET`.
    ONlRet,
    /// The control mode `PARENB`.
    ParenB,
    /// The control mode `PARODD`.
    ParOdd,
}

/// What a mode does to a terminal.
#[derive(Clone, Copy, Debug, PartialEq, Eq, Structural)]
pub enum ModeAction {
    /// A special character is set.
    SetCode(SpecialCode, u8),
    /// A flag is set or cleared.
    SetFlag(TerminalFlag, bool),
    /// Characters have seven bits.
    SevenBits,
    /// Characters have eight bits.
    EightBits,
    /// The input speed is set.
    InputSpeed(u32),
    /// The output speed is set.
    OutputSpeed(u32),
}

/// What a mode with the given argument does to a terminal. Of the argument for a special
/// character the lower eight bits count; a flag is cleared where the argument is zero.
pub open spec fn spec_mode_action(mode: Mode, value: u32) -> ModeAction {
    let code = (value % 0x100) as u8;
    let on = value != 0;
    match mode {
        Mode::VIntr => ModeAction::SetCode(SpecialCode::Intr, code),
        Mode::VQuit => ModeAction::SetCode(SpecialCode::Quit, code),
        Mode::VErase => ModeAction::SetCode(SpecialCode::Erase, code),
        Mode::VKill => ModeAction::SetCode(SpecialCode::Kill, code),
        Mode::VEof => ModeAction::SetCode(SpecialCode::Eof, code),
        Mode::VEol => ModeAction::SetCode(SpecialCode::Eol, code),
        Mode::VEol2 => ModeAction::SetCode(SpecialCode::Eol2, code),
        Mode::VStart => ModeAction::SetCode(SpecialCode::Start, code),
        Mode::VStop => ModeAction::SetCode(SpecialCode::Stop, code),
        Mode::VSusp => ModeAction::SetCode(SpecialCode::Susp, code),
        Mode::VDSusp => ModeAction::SetCode(SpecialCode::DSusp, code),
        Mode::VReprint => ModeAction::SetCode(SpecialCode::Reprint, code),
        Mode::VWErase => ModeAction::SetCode(SpecialCode::WErase, code),
        Mode::VLNext => ModeAction::SetCode(SpecialCode::LNext, code),
        Mode::VFlush => ModeAction::SetCode(SpecialCode::Discard, code),
        Mode::VSwtch => ModeAction::SetCode(SpecialCode::Swtch, code),
        Mode::VStatus => ModeAction::SetCode(SpecialCode::Status, code),
        Mode::VDiscard => ModeAction::SetCode(SpecialCode::Discard, code),
        Mode::IgnPar => ModeAction::SetFlag(TerminalFlag::IgnPar, on),
        Mode::ParMrk => ModeAction::SetFlag(TerminalFlag::ParMrk, on),
        Mode::INPck => ModeAction::SetFlag(TerminalFlag::INPck, on),
        Mode::IStrip => ModeAction::SetFlag(TerminalFlag::IStrip, on),
        Mode::INlCr => ModeAction::SetFlag(TerminalFlag::INlCr, on),
        Mode::IgnCr => ModeAction::SetFlag(TerminalFlag::IgnCr, on),
        Mode::ICrNl => ModeAction::SetFlag(TerminalFlag::ICrNl, on),
        Mode::IUcLc => ModeAction::SetFlag(TerminalFlag::IUcLc, on),
        Mode::IxOn => ModeAction::SetFlag(TerminalFlag::IxOn, on),
        Mode::IxAny => ModeAction::SetFlag(TerminalFlag::IxAny, on),
        Mode::IxOff => ModeAction::SetFlag(TerminalFlag::IxOff, on),
        Mode::IMaxBel => ModeAction::SetFlag(TerminalFlag::IMaxBel, on),
        Mode::IUtf8 => ModeAction::SetFlag(TerminalFlag::IUtf8, on),
        Mode::ISig => ModeAction::SetFlag(TerminalFlag::ISig, on),
        Mode::ICanon => ModeAction::SetFlag(TerminalFlag::ICanon, on),
        Mode::XCase => ModeAction::SetFlag(TerminalFlag::XCase, on),
        Mode::Echo => ModeAction::SetFlag(TerminalFlag::Echo, on),
        Mode::EchoE => ModeAction::SetFlag(TerminalFlag::EchoE, on),
        Mode::EchoK => ModeAction::SetFlag(TerminalFlag::EchoK, on),
        Mode::EchoNl => ModeAction::SetFlag(TerminalFlag::EchoNl, on),
        Mode::NoFlsh => ModeAction::SetFlag(TerminalFlag::NoFlsh, on),
        Mode::TOStop => ModeAction::SetFlag(TerminalFlag::TOStop, on),
        Mode::IExten => ModeAction::SetFlag(TerminalFlag::IExten, on),
        Mode::EchoCtl => ModeAction::SetFlag(TerminalFlag::EchoCtl, on),
        Mode::EchoKe => ModeAction::SetFlag(TerminalFlag::EchoKe, on),
        Mode::Pendin => ModeAction::SetFlag(TerminalFlag::Pendin, on),
        Mode::OPost => ModeAction::SetFlag(TerminalFlag::OPost, on),
        Mode::OLcUc => ModeAction::SetFlag(TerminalFlag::OLcUc, on),
        Mode::ONlCr => ModeAction::SetFlag(TerminalFlag::ONlCr, on),
        Mode::OCrNl => ModeAction::SetFlag(TerminalFlag::OCrNl, on),
        Mode::ONoCr => ModeAction::SetFlag(TerminalFlag::ONoCr, on),
        Mode::ONlRet => ModeAction::SetFlag(TerminalFlag::ONlRet, on),
        Mode::Cs7 => ModeAction::SevenBits,
        Mode::Cs8 => ModeAction::EightBits,
        Mode::ParenB => ModeAction::SetFlag(TerminalFlag::ParenB, on),
        Mode::ParOdd => ModeAction::SetFlag(TerminalFlag::ParOdd, on),
        Mode::TtyOpISpeed => ModeAction::InputSpeed(value),
        Mode::TtyOpOSpeed => ModeAction::OutputSpeed(value),
    }
}

/// What a mode with the given argument does to a terminal.
pub fn mode_action(mode: Mode, value: u32) -> (r: ModeAction)
    ensures
        r == spec_mode_action(mode, value),
{
    let code: u8 = (value % 0x100) as u8;
    let on: bool = value != 0;
    match mode {
        Mode::VIntr => ModeAction::SetCode(SpecialCode::Intr, code),
        Mode::VQuit => ModeAction::SetCode(SpecialCode::Quit, code),
        Mode::VErase => ModeAction::SetCode(SpecialCode::Erase, code),
        Mode::VKill => ModeAction::SetCode(SpecialCode::Kill, code),
        Mode::VEof => ModeAction::SetCode(SpecialCode::Eof, code),
        Mode::VEol => ModeAction::SetCode(SpecialCode::Eol, code),
        Mode::VEol2 => ModeAction::SetCode(SpecialCode::Eol2, code),
        Mode::VStart => ModeAction::SetCode(SpecialCode::Start, code),
        Mode::VStop => ModeAction::SetCode(SpecialCode::Stop, code),
        Mode::VSusp => ModeAction::SetCode(SpecialCode::Susp, code),
        Mode::VDSusp => ModeAction::SetCode(SpecialCode::DSusp, code),
        Mode::VReprint => ModeAction::SetCode(SpecialCode::Reprint, code),
        Mode::VWErase => ModeAction::SetCode(SpecialCode::WErase, code),
        Mode::VLNext => ModeAction::SetCode(SpecialCode::LNext, code),
        Mode::VFlush => ModeAction::SetCode(SpecialCode::Discard, code),
        Mode::VSwtch => ModeAction::SetCode(SpecialCode::Swtch, code),
        Mode::VStatus => ModeAction::SetCode(SpecialCode::Status, code),
        Mode::VDiscard => ModeAction::SetCode(SpecialCode::Discard, code),
        Mode::IgnPar => ModeAction::SetFlag(TerminalFlag::IgnPar, on),
        Mode::ParMrk => ModeAction::SetFlag(TerminalFlag::ParMrk, on),
        Mode::INPck => ModeAction::SetFlag(TerminalFlag::INPck, on),
        Mode::IStrip => ModeAction::SetFlag(TerminalFlag::IStrip, on),
        Mode::INlCr => ModeAction::SetFlag(TerminalFlag::INlCr, on),
        Mode::IgnCr => ModeAction::SetFlag(TerminalFlag::IgnCr, on),
        Mode::ICrNl => ModeAction::SetFlag(TerminalFlag::ICrNl, on),
        Mode::IUcLc => ModeAction::SetFlag(TerminalFlag::IUcLc, on),
        Mode::IxOn => ModeAction::SetFlag(TerminalFlag::IxOn, on),
        Mode::IxAny => ModeAction::SetFlag(TerminalFlag::IxAny, on),
        Mode::IxOff => ModeAction::SetFlag(TerminalFlag::IxOff, on),
        Mode::IMaxBel => ModeAction::SetFlag(TerminalFlag::IMaxBel, on),
        Mode::IUtf8 => ModeAction::SetFlag(TerminalFlag::IUtf8, on),
        Mode::ISig => ModeAction::SetFlag(TerminalFlag::ISig, on),
        Mode::ICanon => ModeAction::SetFlag(TerminalFlag::ICanon, on),
        Mode::XCase => ModeAction::SetFlag(TerminalFlag::XCase, on),
        Mode::Echo => ModeAction::SetFlag(TerminalFlag::Echo, on),
        Mode::EchoE => ModeAction::SetFlag(TerminalFlag::EchoE, on),
        Mode::EchoK => ModeAction::SetFlag(TerminalFlag::EchoK, on),
        Mode::EchoNl => ModeAction::SetFlag(TerminalFlag::EchoNl, on),
        Mode::NoFlsh => ModeAction::SetFlag(TerminalFlag::NoFlsh, on),
        Mode::TOStop => ModeAction::SetFlag(TerminalFlag::TOStop, on),
        Mode::IExten => ModeAction::SetFlag(TerminalFlag::IExten, on),
        Mode::EchoCtl => ModeAction::SetFlag(TerminalFlag::EchoCtl, on),
        Mode::EchoKe => ModeAction::SetFlag(TerminalFlag::EchoKe, on),
        Mode::Pendin => ModeAction::SetFlag(TerminalFlag::Pendin, on),
        Mode::OPost => ModeAction::SetFlag(TerminalFlag::OPost, on),
        Mode::OLcUc => ModeAction::SetFlag(TerminalFlag::OLcUc, on),
        Mode::ONlCr => ModeAction::SetFlag(TerminalFlag::ONlCr, on),
        Mode::OCrNl => ModeAction::SetFlag(TerminalFlag::OCrNl, on),
        Mode::ONoCr => ModeAction::SetFlag(TerminalFlag::ONoCr, on),
        Mode::ONlRet => ModeAction::SetFlag(TerminalFlag::ONlRet, on),
        Mode::Cs7 => ModeAction::SevenBits,
        Mode::Cs8 => ModeAction::EightBits,
        Mode::ParenB => ModeAction::SetFlag(TerminalFlag::ParenB, on),
        Mode::ParOdd => ModeAction::SetFlag(TerminalFlag::ParOdd, on),
        Mode::TtyOpISpeed => ModeAction::InputSpeed(value),
        Mode::TtyOpOSpeed => ModeAction::OutputSpeed(value),
    }
}

/// What a list of opcodes and arguments does to a terminal, up to entry `n`. Opcodes that stand for
/// no mode are passed over.
pub open spec fn actions_for(entries: Seq<(u8, u32)>, n: int) -> Seq<ModeAction>
    decreases n,
{
    if n <= 0 {
        Seq::empty()
    } else {
        match Mode::spec_from_opcode(entries[n - 1].0) {
            Some(mode) => actions_for(entries, n - 1).push(
                spec_mode_action(mode, entries[n - 1].1),
            ),
            None => actions_for(entries, n - 1),
        }
    }
}

/// The opcodes of a list of opcodes and arguments.
pub open spec fn opcodes(entries: Seq<(u8, u32)>) -> Seq<u8> {
    entries.map_values(|entry: (u8, u32)| entry.0)
}

/// The entries of a map of terminal modes, in ascending order of their opcodes.
pub open spec fn listed(entries: Seq<(u8, u32)>, modes: Map<u8, u32>) -> bool {
    &&& opcodes(entries).to_set() == modes.dom()
    &&& forall|i: int| 0 <= i < entries.len() ==> (#[trigger] entries[i]).1 == modes[entries[i].0]
    &&& forall|i: int, j: int| 0 <= i < j < entries.len() ==> entries[i].0 < entries[j].0
}

fn entries_of(modes: &BTreeMap<u8, u32>) -> (r: Vec<(u8, u32)>)
    ensures
        listed(r@, modes@),
{
    broadcast use vstd::laws_cmp::group_laws_cmp, vstd::std_specs::btree::group_btree_axioms;

    let mut out: Vec<(u8, u32)> = Vec::new();
    let ghost keys = vstd::std_specs::btree::spec_keys_iter(modes).remaining();
    for opcode in iter: modes.keys()
        invariant
            iter.seq() == keys,
            keys.unref().to_set() == modes@.dom(),
            out@.len() == iter.index(),
            forall|i: int|
                0 <= i < out@.len() ==> (#[trigger] out@[i]).0 == *keys[i] && out@[i].1
                    == modes@[out@[i].0],
    {
        assert(keys.unref()[iter.index()] == *opcode);
        assert(keys.unref().to_set().contains(*opcode));
        if let Some(value) = modes.get(opcode) {
            out.push((*opcode, *value));
        }
    }
    proof {
        assert(opcodes(out@) =~= keys.unref());
        assert(vstd::laws_cmp::obeys_cmp::<&u8>());
        assert(vstd::std_specs::btree::increasing_seq(keys));
        assert forall|i: int, j: int| 0 <= i < j < out@.len() implies out@[i].0 < out@[j].0 by {
            assert(vstd::std_specs::cmp::OrdSpec::cmp_spec(&keys[i], &keys[j]) is Less);
        }
    }
    out
}

/// What terminal modes do to a terminal, in the order of their opcodes.
pub fn terminal_actions(modes: &BTreeMap<u8, u32>) -> (r: Vec<ModeAction>)
    ensures
        exists|entries: Seq<(u8, u32)>|
            {
                &&& listed(entries, modes@)
                &&& r@ == #[trigger] actions_for(entries, entries.len() as int)
            },
{
    let entries = entries_of(modes);
    let mut out: Vec<ModeAction> = Vec::new();
    let mut i: usize = 0;
    assert(out@ =~= actions_for(entries@, 0));
    while i < entries.len()
        invariant
            i <= entries@.len(),
            out@ == actions_for(entries@, i as int),
        decreases entries@.len() - i,
    {
        let (opcode, value) = entries[i];
        if let Some(mode) = Mode::from_opcode(opcode) {
            out.push(mode_action(mode, value));
        }
        i += 1;
    }
    out
}

/// The environment variables of the shell: those that the client has set, and then the type of
/// the terminal, where there is one.
pub open spec fn shell_env(term: Seq<char>, env: Seq<(Seq<char>, Seq<char>)>) -> Seq<
    (Seq<char>, Seq<char>),
> {
    if term.len() == 0 {
        env
    } else {
        env.push(("TERM"@, term))
    }
}

/// Put the type of the terminal among the environment variables of the shell.
pub fn terminal_env(req: &PtyReq<'_>, env: Vec<(String, String)>) -> (r: Vec<(String, String)>)
    ensures
        env_view(r@) == shell_env(req@.term, env_view(env@)),
{
    let mut env = env;
    let term = cow_text(&req.term);
    if !term.is_empty() {
        let ghost before = env@;
        env.push(("TERM".to_owned(), term.to_owned()));
        assert(env_view(env@) =~= env_view(before).push(("TERM"@, req@.term)));
    }
    env
}

} // verus!
