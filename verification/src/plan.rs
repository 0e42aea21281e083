//! The command orchestrator: given the optional main-light and
//! ambient-light descriptors, decides which protocol commands to issue, in
//! what order, with what literal parameters. Both descriptor groups are
//! independent and run main-light first; a descriptor that fails to parse
//! aborts the run before any command of its own group is issued, without
//! rolling back commands of the group before it.

use crate::parse::{
    HsvParseError, MainParseError, Mode, mode_code, parse_hsv, parse_main, spec_mode_code,
    spec_parse_hsv, spec_parse_main,
};
use crate::wire::{Param, ParamVal};
use vstd::prelude::*;
use vstd::string::StringExecFns;

verus! {

/// A planned protocol command: a method and its ordered parameters.
#[derive(Debug, PartialEq, Eq)]
pub struct Command {
    pub method: String,
    pub params: Vec<Param>,
}

/// Mathematical value of a [`Command`].
#[verifier::ext_equal]
pub ghost struct CommandVal {
    pub method: Seq<char>,
    pub params: Seq<ParamVal>,
}

impl View for Command {
    type V = CommandVal;

    open spec fn view(&self) -> CommandVal {
        CommandVal { method: self.method@, params: self.params@.map_values(|p: Param| p@) }
    }
}

/// The descriptor whose parse failed, with its parse error.
#[derive(Clone, Copy, PartialEq, Eq, Structural, Debug)]
pub enum PlanError {
    Main(MainParseError),
    Ambient(HsvParseError),
}

/// The commands the main-light group issues for a parsed descriptor: at
/// brightness 0 a single power-off; otherwise a power-on carrying the mode
/// code, then the brightness.
pub open spec fn spec_main_commands(mode: Mode, v: u8) -> Seq<CommandVal> {
    if v == 0 {
        seq![
            CommandVal {
                method: "set_power"@,
                params: seq![
                    ParamVal::Text("off"@),
                    ParamVal::Text("smooth"@),
                    ParamVal::U16(500u16),
                ],
            },
        ]
    } else {
        seq![
            CommandVal {
                method: "set_power"@,
                params: seq![
                    ParamVal::Text("on"@),
                    ParamVal::Text("smooth"@),
                    ParamVal::U16(500u16),
                    ParamVal::U8(spec_mode_code(mode)),
                ],
            },
            CommandVal {
                method: "set_bright"@,
                params: seq![ParamVal::U8(v), ParamVal::Text("smooth"@), ParamVal::U16(500u16)],
            },
        ]
    }
}

/// The commands the ambient-light group issues for a parsed descriptor: at
/// value 0 a single background power-off; otherwise background power-on,
/// then hue and saturation, then the value.
pub open spec fn spec_ambient_commands(h: u16, s: u8, v: u8) -> Seq<CommandVal> {
    if v == 0 {
        seq![
            CommandVal {
                method: "bg_set_power"@,
                params: seq![
                    ParamVal::Text("off"@),
                    ParamVal::Text("smooth"@),
                    ParamVal::U16(500u16),
                ],
            },
        ]
    } else {
        seq![
            CommandVal {
                method: "bg_set_power"@,
                params: seq![
                    ParamVal::Text("on"@),
                    ParamVal::Text("smooth"@),
                    ParamVal::U16(500u16),
                ],
            },
            CommandVal {
                method: "bg_set_hsv"@,
                params: seq![
                    ParamVal::U16(h),
                    ParamVal::U8(s),
                    ParamVal::Text("smooth"@),
                    ParamVal::U16(500u16),
                ],
            },
            CommandVal {
                method: "bg_set_bright"@,
                params: seq![ParamVal::U8(v), ParamVal::Text("smooth"@), ParamVal::U16(500u16)],
            },
        ]
    }
}

/// The full plan for the two optional descriptors: the commands to issue in
/// order, and the parse error that aborts the run, if any. A main-light
/// parse error aborts before any command; an ambient-light parse error
/// leaves the main-light commands in place and aborts the ambient group.
pub open spec fn spec_plan(main: Option<Seq<char>>, ambient: Option<Seq<char>>) -> (Seq<
    CommandVal,
>, Option<PlanError>) {
    match main {
        Some(m) => match spec_parse_main(m) {
            Err(e) => (Seq::<CommandVal>::empty(), Some(PlanError::Main(e))),
            Ok(parsed) => {
                let cmds = spec_main_commands(parsed.0, parsed.1);
                match ambient {
                    None => (cmds, None),
                    Some(a) => match spec_parse_hsv(a) {
                        Err(e) => (cmds, Some(PlanError::Ambient(e))),
                        Ok(hsv) => (cmds + spec_ambient_commands(hsv.0, hsv.1, hsv.2), None),
                    },
                }
            },
        },
        None => match ambient {
            None => (Seq::<CommandVal>::empty(), None),
            Some(a) => match spec_parse_hsv(a) {
                Err(e) => (Seq::<CommandVal>::empty(), Some(PlanError::Ambient(e))),
                Ok(hsv) => (spec_ambient_commands(hsv.0, hsv.1, hsv.2), None),
            },
        },
    }
}

pub open spec fn opt_text(s: Option<&str>) -> Option<Seq<char>> {
    match s {
        Some(t) => Some(t@),
        None => None,
    }
}

fn smooth_param() -> (p: Param)
    ensures
        p@ == ParamVal::Text("smooth"@),
{
    Param::Str(String::from_str("smooth"))
}

fn main_commands(mode: Mode, v: u8) -> (r: Vec<Command>)
    ensures
        r@.map_values(|c: Command| c@) == spec_main_commands(mode, v),
{
    let mut r: Vec<Command> = Vec::new();
    if v == 0 {
        let mut ps: Vec<Param> = Vec::new();
        ps.push(Param::Str(String::from_str("off")));
        ps.push(smooth_param());
        ps.push(Param::Uint16(500));
        r.push(Command { method: String::from_str("set_power"), params: ps });
        proof {
            assert(r@.map_values(|c: Command| c@) =~~= spec_main_commands(mode, v));
        }
    } else {
        let mut ps: Vec<Param> = Vec::new();
        ps.push(Param::Str(String::from_str("on")));
        ps.push(smooth_param());
        ps.push(Param::Uint16(500));
        ps.push(Param::Uint8(mode_code(mode)));
        r.push(Command { method: String::from_str("set_power"), params: ps });
        let mut ps2: Vec<Param> = Vec::new();
        ps2.push(Param::Uint8(v));
        ps2.push(smooth_param());
        ps2.push(Param::Uint16(500));
        r.push(Command { method: String::from_str("set_bright"), params: ps2 });
        proof {
            assert(r@.map_values(|c: Command| c@) =~~= spec_main_commands(mode, v));
        }
    }
    r
}

fn ambient_commands(h: u16, s: u8, v: u8) -> (r: Vec<Command>)
    ensures
        r@.map_values(|c: Command| c@) == spec_ambient_commands(h, s, v),
{
    let mut r: Vec<Command> = Vec::new();
    if v == 0 {
        let mut ps: Vec<Param> = Vec::new();
        ps.push(Param::Str(String::from_str("off")));
        ps.push(smooth_param());
        ps.push(Param::Uint16(500));
        r.push(Command { method: String::from_str("bg_set_power"), params: ps });
        proof {
            assert(r@.map_values(|c: Command| c@) =~~= spec_ambient_commands(h, s, v));
        }
    } else {
        let mut ps: Vec<Param> = Vec::new();
        ps.push(Param::Str(String::from_str("on")));
        ps.push(smooth_param());
        ps.push(Param::Uint16(500));
        r.push(Command { method: String::from_str("bg_set_power"), params: ps });
        let mut ps2: Vec<Param> = Vec::new();
        ps2.push(Param::Uint16(h));
        ps2.push(Param::Uint8(s));
        ps2.push(smooth_param());
        ps2.push(Param::Uint16(500));
        r.push(Command { method: String::from_str("bg_set_hsv"), params: ps2 });
        let mut ps3: Vec<Param> = Vec::new();
        ps3.push(Param::Uint8(v));
        ps3.push(smooth_param());
        ps3.push(Param::Uint16(500));
        r.push(Command { method: String::from_str("bg_set_bright"), params: ps3 });
        proof {
            assert(r@.map_values(|c: Command| c@) =~~= spec_ambient_commands(h, s, v));
        }
    }
    r
}

/// Decides the command sequence for the two optional descriptors; computes
/// [`spec_plan`] exactly.
pub fn plan_commands(main: Option<&str>, ambient: Option<&str>) -> (r: (
    Vec<Command>,
    Option<PlanError>,
))
    ensures
        r.0@.map_values(|c: Command| c@) == spec_plan(opt_text(main), opt_text(ambient)).0,
        r.1 == spec_plan(opt_text(main), opt_text(ambient)).1,
{
    let mut cmds: Vec<Command> = Vec::new();
    match main {
        Some(s) => match parse_main(s) {
            Err(e) => {
                proof {
                    assert(cmds@.map_values(|c: Command| c@) =~~= Seq::<CommandVal>::empty());
                }
                return (cmds, Some(PlanError::Main(e)));
            },
            Ok(parsed) => {
                cmds = main_commands(parsed.0, parsed.1);
            },
        },
        None => {},
    }
    match ambient {
        Some(s) => match parse_hsv(s) {
            Err(e) => {
                return (cmds, Some(PlanError::Ambient(e)));
            },
            Ok(hsv) => {
                let mut extra = ambient_commands(hsv.0, hsv.1, hsv.2);
                let ghost before = cmds@.map_values(|c: Command| c@);
                let ghost added = extra@.map_values(|c: Command| c@);
                cmds.append(&mut extra);
                proof {
                    assert(cmds@.map_values(|c: Command| c@) =~~= before + added);
                }
                return (cmds, None);
            },
        },
        None => {},
    }
    proof {
        assert(cmds@.map_values(|c: Command| c@) =~~= spec_plan(
            opt_text(main),
            opt_text(ambient),
        ).0);
    }
    (cmds, None)
}

} // verus!
