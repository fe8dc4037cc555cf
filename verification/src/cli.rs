//! The command line of the developer harness: five commands, each with
//! path options that default to the repository layout.

use vstd::prelude::*;
use crate::text::{chars_of, compare_chars, push_str, Order3};

verus! {

pub open spec fn usage_text() -> Seq<char> {
    "Usage:\n  eqforbeginner-cli generate-example [--output DIRECTORY]\n  eqforbeginner-cli analyze-sub [--dataset FILE] [--source-root DIRECTORY] [--output DIRECTORY]\n  eqforbeginner-cli verify-48k-offline [--dataset FILE] [--source-root DIRECTORY] [--output DIRECTORY]\n  eqforbeginner-cli prepare-phase6-beta [--phase4-project FILE] [--design-csv FILE] [--phase4-wav FILE] [--output DIRECTORY]\n  eqforbeginner-cli generate-phase6-reference [--output DIRECTORY]"@
}

/// The usage summary printed for `--help` and after a command-line error.
pub fn usage() -> (text: &'static str)
    ensures
        text@ == usage_text(),
{
    "Usage:\n  eqforbeginner-cli generate-example [--output DIRECTORY]\n  eqforbeginner-cli analyze-sub [--dataset FILE] [--source-root DIRECTORY] [--output DIRECTORY]\n  eqforbeginner-cli verify-48k-offline [--dataset FILE] [--source-root DIRECTORY] [--output DIRECTORY]\n  eqforbeginner-cli prepare-phase6-beta [--phase4-project FILE] [--design-csv FILE] [--phase4-wav FILE] [--output DIRECTORY]\n  eqforbeginner-cli generate-phase6-reference [--output DIRECTORY]"
}

/// The harness commands.
#[derive(Clone, Copy, Debug, PartialEq, Eq)]
pub enum CommandKind {
    GenerateExample,
    AnalyzeSub,
    Verify48kOffline,
    PreparePhase6Beta,
    GeneratePhase6Reference,
}

pub open spec fn command_kind(name: Seq<char>) -> Option<CommandKind> {
    if name == "generate-example"@ {
        Some(CommandKind::GenerateExample)
    } else if name == "analyze-sub"@ {
        Some(CommandKind::AnalyzeSub)
    } else if name == "verify-48k-offline"@ {
        Some(CommandKind::Verify48kOffline)
    } else if name == "prepare-phase6-beta"@ {
        Some(CommandKind::PreparePhase6Beta)
    } else if name == "generate-phase6-reference"@ {
        Some(CommandKind::GeneratePhase6Reference)
    } else {
        None
    }
}

/// The default path of every option of a command, in option order.
pub open spec fn default_slots(kind: CommandKind) -> Seq<Seq<char>> {
    match kind {
        CommandKind::GenerateExample => seq!["examples/phase1"@],
        CommandKind::AnalyzeSub => seq![
            "measurments/derived/phase3-responses.json"@,
            "measurments"@,
            "examples/phase3-measured"@,
        ],
        CommandKind::Verify48kOffline => seq![
            "measurments/derived/phase4-offline-measurements.json"@,
            "measurments/phase4"@,
            "examples/phase4-offline-measured"@,
        ],
        CommandKind::PreparePhase6Beta => seq![
            "examples/phase4-offline-measured/project.json"@,
            "examples/phase4-offline-measured/filter-design.csv"@,
            "examples/phase4-offline-measured/filter/EQforBeginner_48000_Phase4_Trial.wav"@,
            "examples/phase6-measured-preview"@,
        ],
        CommandKind::GeneratePhase6Reference => seq!["examples/phase6-synthetic-reference"@],
    }
}

/// Which option slot a flag sets for a command.
pub open spec fn option_slot(kind: CommandKind, flag: Seq<char>) -> Option<int> {
    match kind {
        CommandKind::GenerateExample | CommandKind::GeneratePhase6Reference => if flag == "--output"@ {
            Some(0)
        } else {
            None
        },
        CommandKind::AnalyzeSub | CommandKind::Verify48kOffline => if flag == "--dataset"@ {
            Some(0)
        } else if flag == "--source-root"@ {
            Some(1)
        } else if flag == "--output"@ {
            Some(2)
        } else {
            None
        },
        CommandKind::PreparePhase6Beta => if flag == "--phase4-project"@ {
            Some(0)
        } else if flag == "--design-csv"@ {
            Some(1)
        } else if flag == "--phase4-wav"@ {
            Some(2)
        } else if flag == "--output"@ {
            Some(3)
        } else {
            None
        },
    }
}

pub open spec fn missing_value_message(kind: CommandKind, flag: Seq<char>) -> Seq<char> {
    match kind {
        CommandKind::GenerateExample | CommandKind::GeneratePhase6Reference => "--output requires a directory"@,
        _ => flag + " requires a path"@,
    }
}

/// A parsed command line as a value.
pub enum CliCommandView {
    Help,
    Run(CommandKind, Seq<Seq<char>>),
}

pub open spec fn is_help_flag(argument: Seq<char>) -> bool {
    argument == "--help"@ || argument == "-h"@
}

/// Reads the options of a command from argument `i` on; `slots` holds the
/// paths chosen so far. A help flag anywhere wins; an unknown flag or a
/// flag without its value is an error.
pub open spec fn parse_options(kind: CommandKind, args: Seq<Seq<char>>, i: int, slots: Seq<Seq<char>>) -> Result<CliCommandView, Seq<char>>
    decreases args.len() - i,
{
    if i < 0 || i >= args.len() {
        Ok(CliCommandView::Run(kind, slots))
    } else if is_help_flag(args[i]) {
        Ok(CliCommandView::Help)
    } else {
        match option_slot(kind, args[i]) {
            None => Err("unknown argument `"@ + args[i] + "`\n"@ + usage_text()),
            Some(k) => if i + 1 >= args.len() {
                Err(missing_value_message(kind, args[i]))
            } else {
                parse_options(kind, args, i + 2, slots.update(k, args[i + 1]))
            },
        }
    }
}

/// The meaning of the arguments after the program name. With no arguments
/// the harness generates the synthetic example.
pub open spec fn spec_parse_command_line(args: Seq<Seq<char>>) -> Result<CliCommandView, Seq<char>> {
    if args.len() == 0 {
        Ok(CliCommandView::Run(CommandKind::GenerateExample, default_slots(CommandKind::GenerateExample)))
    } else if is_help_flag(args[0]) {
        Ok(CliCommandView::Help)
    } else {
        match command_kind(args[0]) {
            None => Err("unknown command `"@ + args[0] + "`\n"@ + usage_text()),
            Some(kind) => parse_options(kind, args, 1, default_slots(kind)),
        }
    }
}

/// A parsed command line.
#[derive(Clone, Debug, PartialEq, Eq)]
pub enum CliCommand {
    Help,
    GenerateExample { output: String },
    AnalyzeSub { dataset: String, source_root: String, output: String },
    Verify48kOffline { dataset: String, source_root: String, output: String },
    PreparePhase6Beta { phase4_project: String, design_csv: String, phase4_wav: String, output: String },
    GeneratePhase6Reference { output: String },
}

impl View for CliCommand {
    type V = CliCommandView;

    open spec fn view(&self) -> CliCommandView {
        match self {
            CliCommand::Help => CliCommandView::Help,
            CliCommand::GenerateExample { output } => CliCommandView::Run(CommandKind::GenerateExample, seq![output@]),
            CliCommand::AnalyzeSub { dataset, source_root, output } => CliCommandView::Run(
                CommandKind::AnalyzeSub,
                seq![dataset@, source_root@, output@],
            ),
            CliCommand::Verify48kOffline { dataset, source_root, output } => CliCommandView::Run(
                CommandKind::Verify48kOffline,
                seq![dataset@, source_root@, output@],
            ),
            CliCommand::PreparePhase6Beta { phase4_project, design_csv, phase4_wav, output } => CliCommandView::Run(
                CommandKind::PreparePhase6Beta,
                seq![phase4_project@, design_csv@, phase4_wav@, output@],
            ),
            CliCommand::GeneratePhase6Reference { output } => CliCommandView::Run(
                CommandKind::GeneratePhase6Reference,
                seq![output@],
            ),
        }
    }
}

pub open spec fn texts(values: Seq<String>) -> Seq<Seq<char>> {
    values.map_values(|text: String| text@)
}

pub open spec fn command_result_view(r: Result<CliCommand, String>) -> Result<CliCommandView, Seq<char>> {
    match r {
        Ok(command) => Ok(command@),
        Err(message) => Err(message@),
    }
}

/// A path flag of the measured-response commands sets the field it names:
/// `analyze-sub` or `verify-48k-offline` followed by `--dataset`,
/// `--source-root` or `--output` and a value yields that command with the
/// named path set to the value and the two others at their defaults.
pub proof fn lemma_path_flags_set_the_fields_they_name(
    r: Result<CliCommand, String>,
    command: Seq<char>,
    flag: Seq<char>,
    value: Seq<char>,
)
    requires
        command == "analyze-sub"@ || command == "verify-48k-offline"@,
        flag == "--dataset"@ || flag == "--source-root"@ || flag == "--output"@,
        command_result_view(r) == spec_parse_command_line(seq![command, flag, value]),
    ensures
        command == "analyze-sub"@ ==> (r matches Ok(CliCommand::AnalyzeSub { dataset, source_root, output })
            && dataset@ == (if flag == "--dataset"@ {
            value
        } else {
            "measurments/derived/phase3-responses.json"@
        }) && source_root@ == (if flag == "--source-root"@ {
            value
        } else {
            "measurments"@
        }) && output@ == (if flag == "--output"@ {
            value
        } else {
            "examples/phase3-measured"@
        })),
        command == "verify-48k-offline"@ ==> (r matches Ok(CliCommand::Verify48kOffline { dataset, source_root, output })
            && dataset@ == (if flag == "--dataset"@ {
            value
        } else {
            "measurments/derived/phase4-offline-measurements.json"@
        }) && source_root@ == (if flag == "--source-root"@ {
            value
        } else {
            "measurments/phase4"@
        }) && output@ == (if flag == "--output"@ {
            value
        } else {
            "examples/phase4-offline-measured"@
        })),
{
    reveal_strlit("analyze-sub");
    reveal_strlit("verify-48k-offline");
    reveal_strlit("generate-example");
    reveal_strlit("--help");
    reveal_strlit("-h");
    reveal_strlit("--dataset");
    reveal_strlit("--source-root");
    reveal_strlit("--output");
    assert("analyze-sub"@.len() == 11 && "verify-48k-offline"@.len() == 18 && "generate-example"@.len() == 16);
    assert("--help"@.len() == 6 && "-h"@.len() == 2);
    assert("--dataset"@.len() == 9 && "--source-root"@.len() == 13 && "--output"@.len() == 8);
    let args = seq![command, flag, value];
    assert(args.len() == 3 && args[0] == command && args[1] == flag && args[2] == value);
    assert(!is_help_flag(command));
    assert(!is_help_flag(flag));
    let kind = if command == "analyze-sub"@ {
        CommandKind::AnalyzeSub
    } else {
        CommandKind::Verify48kOffline
    };
    assert(command_kind(command) == Some(kind));
    let k: int = if flag == "--dataset"@ {
        0
    } else if flag == "--source-root"@ {
        1
    } else {
        2
    };
    assert(option_slot(kind, flag) == Some(k));
    let slots = default_slots(kind).update(k, value);
    assert(parse_options(kind, args, 3, slots) == Ok::<CliCommandView, Seq<char>>(CliCommandView::Run(kind, slots)));
    assert(spec_parse_command_line(args) == Ok::<CliCommandView, Seq<char>>(CliCommandView::Run(kind, slots)));
    match r {
        Ok(c) => {
            assert(c@ == CliCommandView::Run(kind, slots));
            match c {
                CliCommand::AnalyzeSub { dataset, source_root, output } => {
                    assert(seq![dataset@, source_root@, output@] == slots);
                    assert(dataset@ == slots[0] && source_root@ == slots[1] && output@ == slots[2]);
                },
                CliCommand::Verify48kOffline { dataset, source_root, output } => {
                    assert(seq![dataset@, source_root@, output@] == slots);
                    assert(dataset@ == slots[0] && source_root@ == slots[1] && output@ == slots[2]);
                },
                _ => {},
            }
        },
        Err(_) => {},
    }
}

/// A path flag of `prepare-phase6-beta` sets the field it names: followed by
/// `--phase4-project`, `--design-csv`, `--phase4-wav` or `--output` and a
/// value, it yields the command with that path set to the value and the
/// three others at their defaults.
pub proof fn lemma_preview_flags_set_the_fields_they_name(r: Result<CliCommand, String>, flag: Seq<char>, value: Seq<char>)
    requires
        flag == "--phase4-project"@ || flag == "--design-csv"@ || flag == "--phase4-wav"@ || flag == "--output"@,
        command_result_view(r) == spec_parse_command_line(seq!["prepare-phase6-beta"@, flag, value]),
    ensures
        r matches Ok(CliCommand::PreparePhase6Beta { phase4_project, design_csv, phase4_wav, output }) && phase4_project@
            == (if flag == "--phase4-project"@ {
            value
        } else {
            "examples/phase4-offline-measured/project.json"@
        }) && design_csv@ == (if flag == "--design-csv"@ {
            value
        } else {
            "examples/phase4-offline-measured/filter-design.csv"@
        }) && phase4_wav@ == (if flag == "--phase4-wav"@ {
            value
        } else {
            "examples/phase4-offline-measured/filter/EQforBeginner_48000_Phase4_Trial.wav"@
        }) && output@ == (if flag == "--output"@ {
            value
        } else {
            "examples/phase6-measured-preview"@
        }),
{
    reveal_strlit("prepare-phase6-beta");
    reveal_strlit("analyze-sub");
    reveal_strlit("verify-48k-offline");
    reveal_strlit("generate-example");
    reveal_strlit("--help");
    reveal_strlit("-h");
    reveal_strlit("--phase4-project");
    reveal_strlit("--design-csv");
    reveal_strlit("--phase4-wav");
    reveal_strlit("--output");
    assert("prepare-phase6-beta"@.len() == 19 && "analyze-sub"@.len() == 11 && "verify-48k-offline"@.len() == 18
        && "generate-example"@.len() == 16);
    assert("--help"@.len() == 6 && "-h"@.len() == 2 && "--output"@.len() == 8);
    assert("--phase4-project"@.len() == 16 && "--design-csv"@.len() == 12 && "--phase4-wav"@.len() == 12);
    assert("--design-csv"@[2] != "--phase4-wav"@[2]);
    let command = "prepare-phase6-beta"@;
    let args = seq![command, flag, value];
    assert(args.len() == 3 && args[0] == command && args[1] == flag && args[2] == value);
    assert(!is_help_flag(command));
    assert(!is_help_flag(flag));
    let kind = CommandKind::PreparePhase6Beta;
    assert(command_kind(command) == Some(kind));
    let k: int = if flag == "--phase4-project"@ {
        0
    } else if flag == "--design-csv"@ {
        1
    } else if flag == "--phase4-wav"@ {
        2
    } else {
        3
    };
    assert(option_slot(kind, flag) == Some(k));
    let slots = default_slots(kind).update(k, value);
    assert(parse_options(kind, args, 3, slots) == Ok::<CliCommandView, Seq<char>>(CliCommandView::Run(kind, slots)));
    assert(spec_parse_command_line(args) == Ok::<CliCommandView, Seq<char>>(CliCommandView::Run(kind, slots)));
    match r {
        Ok(c) => {
            assert(c@ == CliCommandView::Run(kind, slots));
            match c {
                CliCommand::PreparePhase6Beta { phase4_project, design_csv, phase4_wav, output } => {
                    assert(seq![phase4_project@, design_csv@, phase4_wav@, output@] == slots);
                    assert(phase4_project@ == slots[0] && design_csv@ == slots[1] && phase4_wav@ == slots[2]
                        && output@ == slots[3]);
                },
                _ => {},
            }
        },
        Err(_) => {},
    }
}

fn same_text(a: &str, b: &str) -> (same: bool)
    ensures
        same == (a@ == b@),
{
    let left = chars_of(a);
    let right = chars_of(b);
    match compare_chars(&left, &right) {
        Order3::Equal => true,
        _ => false,
    }
}

fn exec_command_kind(name: &str) -> (kind: Option<CommandKind>)
    ensures
        kind == command_kind(name@),
{
    if same_text(name, "generate-example") {
        Some(CommandKind::GenerateExample)
    } else if same_text(name, "analyze-sub") {
        Some(CommandKind::AnalyzeSub)
    } else if same_text(name, "verify-48k-offline") {
        Some(CommandKind::Verify48kOffline)
    } else if same_text(name, "prepare-phase6-beta") {
        Some(CommandKind::PreparePhase6Beta)
    } else if same_text(name, "generate-phase6-reference") {
        Some(CommandKind::GeneratePhase6Reference)
    } else {
        None
    }
}

fn exec_default_slots(kind: CommandKind) -> (slots: Vec<String>)
    ensures
        texts(slots@) == default_slots(kind),
{
    let mut slots: Vec<String> = Vec::new();
    match kind {
        CommandKind::GenerateExample => {
            slots.push("examples/phase1".to_owned());
        },
        CommandKind::AnalyzeSub => {
            slots.push("measurments/derived/phase3-responses.json".to_owned());
            slots.push("measurments".to_owned());
            slots.push("examples/phase3-measured".to_owned());
        },
        CommandKind::Verify48kOffline => {
            slots.push("measurments/derived/phase4-offline-measurements.json".to_owned());
            slots.push("measurments/phase4".to_owned());
            slots.push("examples/phase4-offline-measured".to_owned());
        },
        CommandKind::PreparePhase6Beta => {
            slots.push("examples/phase4-offline-measured/project.json".to_owned());
            slots.push("examples/phase4-offline-measured/filter-design.csv".to_owned());
            slots.push("examples/phase4-offline-measured/filter/EQforBeginner_48000_Phase4_Trial.wav".to_owned());
            slots.push("examples/phase6-measured-preview".to_owned());
        },
        CommandKind::GeneratePhase6Reference => {
            slots.push("examples/phase6-synthetic-reference".to_owned());
        },
    }
    slots
}

fn exec_option_slot(kind: CommandKind, flag: &str) -> (slot: Option<usize>)
    ensures
        match slot {
            Some(k) => option_slot(kind, flag@) == Some(k as int),
            None => option_slot(kind, flag@) is None,
        },
{
    match kind {
        CommandKind::GenerateExample | CommandKind::GeneratePhase6Reference => if same_text(flag, "--output") {
            Some(0)
        } else {
            None
        },
        CommandKind::AnalyzeSub | CommandKind::Verify48kOffline => if same_text(flag, "--dataset") {
            Some(0)
        } else if same_text(flag, "--source-root") {
            Some(1)
        } else if same_text(flag, "--output") {
            Some(2)
        } else {
            None
        },
        CommandKind::PreparePhase6Beta => if same_text(flag, "--phase4-project") {
            Some(0)
        } else if same_text(flag, "--design-csv") {
            Some(1)
        } else if same_text(flag, "--phase4-wav") {
            Some(2)
        } else if same_text(flag, "--output") {
            Some(3)
        } else {
            None
        },
    }
}

fn exec_missing_value_message(kind: CommandKind, flag: &str) -> (message: String)
    ensures
        message@ == missing_value_message(kind, flag@),
{
    match kind {
        CommandKind::GenerateExample | CommandKind::GeneratePhase6Reference => "--output requires a directory".to_owned(),
        _ => {
            let mut message = flag.to_owned();
            push_str(&mut message, " requires a path");
            message
        },
    }
}

fn is_help(argument: &str) -> (help: bool)
    ensures
        help == is_help_flag(argument@),
{
    same_text(argument, "--help") || same_text(argument, "-h")
}

fn take_slot(slots: &Vec<String>, k: usize) -> (value: String)
    requires
        k < slots@.len(),
    ensures
        value@ == texts(slots@)[k as int],
{
    slots[k].clone()
}

fn build_command(kind: CommandKind, slots: &Vec<String>) -> (command: CliCommand)
    requires
        texts(slots@).len() == default_slots(kind).len(),
    ensures
        command@ == CliCommandView::Run(kind, texts(slots@)),
{
    let ghost all = texts(slots@);
    match kind {
        CommandKind::GenerateExample => {
            let output = take_slot(slots, 0);
            assert(all == seq![output@]);
            CliCommand::GenerateExample { output }
        },
        CommandKind::GeneratePhase6Reference => {
            let output = take_slot(slots, 0);
            assert(all == seq![output@]);
            CliCommand::GeneratePhase6Reference { output }
        },
        CommandKind::AnalyzeSub => {
            let dataset = take_slot(slots, 0);
            let source_root = take_slot(slots, 1);
            let output = take_slot(slots, 2);
            assert(all == seq![dataset@, source_root@, output@]);
            CliCommand::AnalyzeSub { dataset, source_root, output }
        },
        CommandKind::Verify48kOffline => {
            let dataset = take_slot(slots, 0);
            let source_root = take_slot(slots, 1);
            let output = take_slot(slots, 2);
            assert(all == seq![dataset@, source_root@, output@]);
            CliCommand::Verify48kOffline { dataset, source_root, output }
        },
        CommandKind::PreparePhase6Beta => {
            let phase4_project = take_slot(slots, 0);
            let design_csv = take_slot(slots, 1);
            let phase4_wav = take_slot(slots, 2);
            let output = take_slot(slots, 3);
            assert(all == seq![phase4_project@, design_csv@, phase4_wav@, output@]);
            CliCommand::PreparePhase6Beta { phase4_project, design_csv, phase4_wav, output }
        },
    }
}

/// Interprets the arguments that follow the program name.
pub fn parse_command_line(args: &Vec<String>) -> (r: Result<CliCommand, String>)
    ensures
        command_result_view(r) == spec_parse_command_line(texts(args@)),
{
    let ghost arg_texts = texts(args@);
    if args.len() == 0 {
        let slots = exec_default_slots(CommandKind::GenerateExample);
        return Ok(build_command(CommandKind::GenerateExample, &slots));
    }
    assert(arg_texts[0] == args@[0]@);
    if is_help(args[0].as_str()) {
        return Ok(CliCommand::Help);
    }
    let kind = match exec_command_kind(args[0].as_str()) {
        Some(kind) => kind,
        None => {
            let mut message = "unknown command `".to_owned();
            push_str(&mut message, args[0].as_str());
            push_str(&mut message, "`\n");
            push_str(&mut message, usage());
            return Err(message);
        },
    };
    let mut slots = exec_default_slots(kind);
    let mut i: usize = 1;
    while i < args.len()
        invariant
            1 <= i,
            arg_texts == texts(args@),
            texts(slots@).len() == default_slots(kind).len(),
            spec_parse_command_line(arg_texts) == parse_options(kind, arg_texts, i as int, texts(slots@)),
        decreases args@.len() - i,
    {
        let argument = args[i].as_str();
        assert(arg_texts[i as int] == argument@);
        if is_help(argument) {
            return Ok(CliCommand::Help);
        }
        match exec_option_slot(kind, argument) {
            None => {
                let mut message = "unknown argument `".to_owned();
                push_str(&mut message, argument);
                push_str(&mut message, "`\n");
                push_str(&mut message, usage());
                return Err(message);
            },
            Some(k) => {
                if i + 1 >= args.len() {
                    return Err(exec_missing_value_message(kind, argument));
                }
                let value = args[i + 1].clone();
                assert(arg_texts[i + 1] == value@);
                let ghost before = texts(slots@);
                slots.set(k, value);
                assert(texts(slots@) == before.update(k as int, arg_texts[i + 1]));
                i = i + 2;
            },
        }
    }
    Ok(build_command(kind, &slots))
}

} // verus!
