//! What a command line asks the program to do.

use vstd::prelude::*;

use crate::cli::Cli;
use crate::cli::CliText;
use crate::gait::gait_tune;
use crate::gait::number_flag;
use crate::gait::tune_asked;
use crate::gait::GaitError;
use crate::gait::GaitTune;
use crate::numbers::decimal;
use crate::numbers::decimal_text;
use crate::numeral::is_number_text;
use crate::numeral::lemma_plain_number;
use crate::numeral::Numeral;
use crate::quote::quoted;
use crate::quote::quoted_form;
use crate::text::glue;
use crate::text::glue3;
use crate::text::same_text;
use crate::util::plan_util;
use crate::util::util_asked;
use crate::util::UtilError;
use crate::util::UtilRequest;
use crate::viz::viz_asked;
use crate::viz::viz_cfg;
use crate::viz::VizCfg;

verus! {

/// Settings of a run on the robot. `S` is how texts are held, `N` how numbers
/// are.
#[derive(Debug)]
pub struct RunSettings<S, N> {
    pub iface: S,
    pub misa: S,
    /// Target speed (m/s).
    pub vx: N,
    /// Time of walking in place (s).
    pub inplace: N,
    /// Time of walking forward at the target speed (s).
    pub forward: N,
    /// Position gain, in single precision.
    pub kp: N,
    /// Damping gain, in single precision.
    pub kd: N,
    pub tune: GaitTune<N>,
    /// Whether the legs support the body's weight by torque, and how much of it.
    pub ff: bool,
    pub ff_scale: N,
    /// Strength of the levelling of the body.
    pub level_gain: N,
    /// Where the telemetry goes.
    pub csv: Option<S>,
    pub viz: VizCfg<S, N>,
    /// Whether the LED shows three-leg support, and how long before and after (s).
    pub led_3support: bool,
    pub led_margin: N,
    /// Whether the onboard controller is released before and restored after.
    pub release: bool,
    pub restore: bool,
}

/// The text of an optional string.
pub open spec fn text_view(s: Option<String>) -> Option<Seq<char>> {
    match s {
        Some(s) => Some(s@),
        None => None,
    }
}

impl View for RunSettings<String, Numeral> {
    type V = RunSettings<Seq<char>, Seq<char>>;

    open spec fn view(&self) -> RunSettings<Seq<char>, Seq<char>> {
        RunSettings {
            iface: self.iface@,
            misa: self.misa@,
            vx: self.vx@,
            inplace: self.inplace@,
            forward: self.forward@,
            kp: self.kp@,
            kd: self.kd@,
            tune: self.tune@,
            ff: self.ff,
            ff_scale: self.ff_scale@,
            level_gain: self.level_gain@,
            csv: text_view(self.csv),
            viz: self.viz@,
            led_3support: self.led_3support,
            led_margin: self.led_margin@,
            release: self.release,
            restore: self.restore,
        }
    }
}

/// What the program is to do. `S` is how texts are held, `N` how numbers are.
#[derive(Debug)]
pub enum Command<S, N> {
    /// Show how the program is used.
    Help,
    /// Check the gait against the joint limits.
    Dump { misa: S, tune: GaitTune<N> },
    /// Measure what the gait intends.
    Intent { misa: S, vx: N, tune: GaitTune<N>, viz: VizCfg<S, N> },
    /// Drive the robot.
    Run(RunSettings<S, N>),
    /// Switch the onboard controller off.
    Release { iface: S },
    /// Switch the onboard controller on.
    Restore { iface: S },
    /// Tell the mode of the onboard controller.
    CheckMode { iface: S },
    /// An auxiliary command.
    Util(UtilRequest<S>),
}

impl View for Command<String, Numeral> {
    type V = Command<Seq<char>, Seq<char>>;

    open spec fn view(&self) -> Command<Seq<char>, Seq<char>> {
        match self {
            Command::Help => Command::Help,
            Command::Dump { misa, tune } => Command::Dump { misa: misa@, tune: tune@ },
            Command::Intent { misa, vx, tune, viz } => Command::Intent {
                misa: misa@,
                vx: vx@,
                tune: tune@,
                viz: viz@,
            },
            Command::Run(settings) => Command::Run(settings@),
            Command::Release { iface } => Command::Release { iface: iface@ },
            Command::Restore { iface } => Command::Restore { iface: iface@ },
            Command::CheckMode { iface } => Command::CheckMode { iface: iface@ },
            Command::Util(request) => Command::Util(request@),
        }
    }
}

/// Why a command line is refused. `S` is how texts are held.
#[derive(Debug)]
pub enum CommandError<S> {
    Gait(GaitError<S>),
    /// A run lacks the interface; the mode it was asked under.
    RunIface(S),
    /// Another mode lacks the interface.
    Iface(S),
    Util(UtilError<S>),
    UnknownMode(S),
}

impl View for CommandError<String> {
    type V = CommandError<Seq<char>>;

    open spec fn view(&self) -> CommandError<Seq<char>> {
        match self {
            CommandError::Gait(e) => CommandError::Gait(e@),
            CommandError::RunIface(mode) => CommandError::RunIface(mode@),
            CommandError::Iface(mode) => CommandError::Iface(mode@),
            CommandError::Util(e) => CommandError::Util(e@),
            CommandError::UnknownMode(mode) => CommandError::UnknownMode(mode@),
        }
    }
}

impl CommandError<Seq<char>> {
    /// The status that the program ends with: 2 for a wrong use, 1 otherwise.
    pub open spec fn status(self) -> i32 {
        match self {
            CommandError::Gait(_) => 1,
            CommandError::RunIface(_) => 2,
            CommandError::Iface(_) => 2,
            CommandError::Util(_) => 1,
            CommandError::UnknownMode(_) => 2,
        }
    }

    /// The text that was given and is quoted in the message.
    pub open spec fn given(self) -> Seq<char> {
        match self {
            CommandError::Gait(GaitError::Mode(s)) => s,
            CommandError::Gait(GaitError::Type(s)) => s,
            CommandError::Util(e) => e.given(),
            CommandError::UnknownMode(s) => s,
            _ => Seq::empty(),
        }
    }

    /// The message, with the given text quoted as `shown`.
    pub open spec fn message(self, shown: Seq<char>) -> Seq<char> {
        match self {
            CommandError::Gait(GaitError::Mode(_)) => "error: unknown --gait "@ + shown
                + " (linear-crawl|champ|mpc|centroidal-srbd|full-centroidal)"@,
            CommandError::Gait(GaitError::Type(_)) => "error: unknown --gait-type "@ + shown
                + " (trot|walk|pace|bound|crawl)"@,
            CommandError::RunIface(mode) => "usage: go2-gait-runner "@ + mode
                + " <iface> [--misa P] [--vx V] [--inplace S] [--forward S] [--kp K] [--kd K] [--swing H] [--cycle S] [--four-support F] [--ff] [--ff-scale S] [--csv PATH]"@,
            CommandError::Iface(mode) => "usage: go2-gait-runner "@ + mode + " <iface>"@,
            CommandError::Util(e) => "error: "@ + e.message(shown),
            CommandError::UnknownMode(_) =>
            "usage: go2-gait-runner <dump|intent|run|diag|release|restore|checkmode|util> ...   (got mode "@
                + shown + ")"@,
        }
    }
}

impl CommandError<String> {
    /// The status that the program ends with.
    pub fn exit_code(&self) -> (r: i32)
        ensures
            r == self@.status(),
            r == 1 <==> self@ is Gait || self@ is Util,
            r == 2 <==> !(self@ is Gait || self@ is Util),
    {
        match self {
            CommandError::Gait(_) => 1,
            CommandError::RunIface(_) => 2,
            CommandError::Iface(_) => 2,
            CommandError::Util(_) => 1,
            CommandError::UnknownMode(_) => 2,
        }
    }

    /// The text that was given and is quoted in the message.
    fn given_text(&self) -> (r: &str)
        ensures
            r@ == self@.given(),
    {
        match self {
            CommandError::Gait(GaitError::Mode(s)) => s.as_str(),
            CommandError::Gait(GaitError::Type(s)) => s.as_str(),
            CommandError::Util(e) => e.given_text(),
            CommandError::UnknownMode(s) => s.as_str(),
            _ => {
                proof {
                    reveal_strlit("");
                }
                assert(""@ =~= Seq::<char>::empty());
                ""
            },
        }
    }

    /// The message, with the given text quoted as `shown`.
    pub fn message_showing(&self, shown: &str) -> (r: String)
        ensures
            r@ == self@.message(shown@),
    {
        match self {
            CommandError::Gait(GaitError::Mode(_)) => glue3(
                "error: unknown --gait ",
                shown,
                " (linear-crawl|champ|mpc|centroidal-srbd|full-centroidal)",
            ),
            CommandError::Gait(GaitError::Type(_)) => glue3(
                "error: unknown --gait-type ",
                shown,
                " (trot|walk|pace|bound|crawl)",
            ),
            CommandError::RunIface(mode) => glue3(
                "usage: go2-gait-runner ",
                mode.as_str(),
                " <iface> [--misa P] [--vx V] [--inplace S] [--forward S] [--kp K] [--kd K] [--swing H] [--cycle S] [--four-support F] [--ff] [--ff-scale S] [--csv PATH]",
            ),
            CommandError::Iface(mode) => glue3("usage: go2-gait-runner ", mode.as_str(), " <iface>"),
            CommandError::Util(e) => glue("error: ", e.message_showing(shown).as_str()),
            CommandError::UnknownMode(_) => glue3(
                "usage: go2-gait-runner <dump|intent|run|diag|release|restore|checkmode|util> ...   (got mode ",
                shown,
                ")",
            ),
        }
    }

    /// The message, with the given text in quotation marks.
    pub fn message(&self) -> (r: String)
        ensures
            r@ == self@.message(quoted_form(self@.given())),
    {
        self.message_showing(quoted(self.given_text()).as_str())
    }
}

/// Help is asked for.
pub open spec fn asks_help(cli: CliText) -> bool {
    cli.flags.contains_key("help"@) || cli.positionals.contains("-h"@) || cli.positionals.contains(
        "--help"@,
    )
}

/// The mode that a command line asks for.
pub open spec fn mode_word(cli: CliText) -> Seq<char> {
    if cli.positionals.len() == 0 {
        "dump"@
    } else {
        cli.positionals[0]
    }
}

/// The robot model that a command line asks for.
pub open spec fn misa_asked(cli: CliText) -> Seq<char> {
    match cli.value("misa"@) {
        Some(path) => path,
        None => "models/unitree_go2/go2.misa"@,
    }
}

/// The run that a command line asks for.
pub open spec fn run_asked(
    cli: CliText,
    tune: GaitTune<Seq<char>>,
    planned: Seq<char>,
) -> RunSettings<Seq<char>, Seq<char>> {
    RunSettings {
        iface: cli.positional(1),
        misa: misa_asked(cli),
        vx: cli.number_or("vx"@, "0.0"@),
        inplace: cli.number_or("inplace"@, "3.0"@),
        forward: cli.number_or("forward"@, "4.0"@),
        kp: cli.number_or("kp"@, "60.0"@),
        kd: cli.number_or("kd"@, "5.0"@),
        tune,
        ff: cli.is_on("ff"@) || cli.is_on("grav-ff"@),
        ff_scale: cli.number_or("ff-scale"@, "1.0"@),
        level_gain: if cli.is_on("level"@) {
            cli.number_or("level-gain"@, "0.3"@)
        } else {
            "0.0"@
        },
        csv: cli.value("csv"@),
        viz: viz_asked(cli, planned),
        led_3support: cli.is_on("led-3support"@),
        led_margin: cli.number_or("led-margin"@, "0.1"@),
        release: !cli.is_on("no-release"@),
        restore: cli.is_on("restore"@),
    }
}

/// What a command line asks for, once its gait is known.
pub open spec fn mode_command(
    cli: CliText,
    tune: GaitTune<Seq<char>>,
    planned: Seq<char>,
) -> Result<Command<Seq<char>, Seq<char>>, CommandError<Seq<char>>> {
    let mode = mode_word(cli);
    let iface = cli.positional(1);
    if mode == "dump"@ {
        Ok(Command::Dump { misa: misa_asked(cli), tune })
    } else if mode == "intent"@ {
        Ok(
            Command::Intent {
                misa: misa_asked(cli),
                vx: cli.number_or("vx"@, "0.05"@),
                tune,
                viz: viz_asked(cli, planned),
            },
        )
    } else if mode == "run"@ || mode == "diag"@ {
        if iface.len() == 0 {
            Err(CommandError::RunIface(mode))
        } else {
            Ok(Command::Run(run_asked(cli, tune, planned)))
        }
    } else if mode == "release"@ || mode == "restore"@ || mode == "checkmode"@ {
        if iface.len() == 0 {
            Err(CommandError::Iface(mode))
        } else if mode == "release"@ {
            Ok(Command::Release { iface })
        } else if mode == "restore"@ {
            Ok(Command::Restore { iface })
        } else {
            Ok(Command::CheckMode { iface })
        }
    } else if mode == "util"@ {
        match util_asked(cli) {
            Ok(request) => Ok(Command::Util(request)),
            Err(e) => Err(CommandError::Util(e)),
        }
    } else {
        Err(CommandError::UnknownMode(mode))
    }
}

/// What a command line asks for. `planned` is the usual key of the live stream.
pub open spec fn command_asked(cli: CliText, planned: Seq<char>) -> Result<
    Command<Seq<char>, Seq<char>>,
    CommandError<Seq<char>>,
> {
    if asks_help(cli) {
        Ok(Command::Help)
    } else {
        match tune_asked(cli) {
            Err(e) => Err(CommandError::Gait(e)),
            Ok(tune) => mode_command(cli, tune, planned),
        }
    }
}

fn has_positional(cli: &Cli, word: &str) -> (r: bool)
    ensures
        r == cli@.positionals.contains(word@),
{
    for i in 0..cli.positionals.len()
        invariant
            forall|j: int| 0 <= j < i ==> #[trigger] cli@.positionals[j] != word@,
    {
        if same_text(cli.positionals[i].as_str(), word) {
            assert(cli@.positionals[i as int] == word@);
            return true;
        }
    }
    false
}

fn misa_path(cli: &Cli) -> (r: String)
    ensures
        r@ == misa_asked(cli@),
{
    match cli.str("misa") {
        Some(path) => path.to_owned(),
        None => "models/unitree_go2/go2.misa".to_owned(),
    }
}

proof fn lemma_default_numbers()
    ensures
        is_number_text("0.0"@),
        is_number_text("0.05"@),
        is_number_text("0.1"@),
        is_number_text("0.3"@),
        is_number_text("1.0"@),
        is_number_text("3.0"@),
        is_number_text("4.0"@),
        is_number_text("5.0"@),
        is_number_text("60.0"@),
{
    reveal_strlit("0.0");
    reveal_strlit("0.05");
    reveal_strlit("0.1");
    reveal_strlit("0.3");
    reveal_strlit("1.0");
    reveal_strlit("3.0");
    reveal_strlit("4.0");
    reveal_strlit("5.0");
    reveal_strlit("60.0");
    lemma_plain_number("0.0"@, 1);
    lemma_plain_number("0.05"@, 1);
    lemma_plain_number("0.1"@, 1);
    lemma_plain_number("0.3"@, 1);
    lemma_plain_number("1.0"@, 1);
    lemma_plain_number("3.0"@, 1);
    lemma_plain_number("4.0"@, 1);
    lemma_plain_number("5.0"@, 1);
    lemma_plain_number("60.0"@, 2);
}

/// A single-precision number flag with the number that holds when it is missing
/// or unreadable.
fn single_flag(cli: &Cli, key: &str, default: &str) -> (r: Numeral)
    requires
        is_number_text(default@),
    ensures
        r@ == cli@.number_or(key@, default@),
{
    match cli.float32(key) {
        Some(n) => n,
        None => Numeral::known(default),
    }
}

fn run_settings(cli: &Cli, tune: GaitTune<Numeral>, planned: &str) -> (r: RunSettings<
    String,
    Numeral,
>)
    ensures
        r@ == run_asked(cli@, tune@, planned@),
{
    proof {
        lemma_default_numbers();
    }
    let level_gain: Numeral = if cli.flag("level") {
        number_flag(cli, "level-gain", "0.3")
    } else {
        Numeral::known("0.0")
    };
    let csv: Option<String> = match cli.str("csv") {
        Some(path) => Some(path.to_owned()),
        None => None,
    };
    RunSettings {
        iface: cli.positional(1).to_owned(),
        misa: misa_path(cli),
        vx: number_flag(cli, "vx", "0.0"),
        inplace: number_flag(cli, "inplace", "3.0"),
        forward: number_flag(cli, "forward", "4.0"),
        kp: single_flag(cli, "kp", "60.0"),
        kd: single_flag(cli, "kd", "5.0"),
        tune,
        ff: cli.flag("ff") || cli.flag("grav-ff"),
        ff_scale: number_flag(cli, "ff-scale", "1.0"),
        level_gain,
        csv,
        viz: viz_cfg(cli, planned),
        led_3support: cli.flag("led-3support"),
        led_margin: number_flag(cli, "led-margin", "0.1"),
        release: !cli.flag("no-release"),
        restore: cli.flag("restore"),
    }
}

/// The interface of the robot: the positional after the mode.
pub fn require_iface(cli: &Cli) -> (r: Result<String, CommandError<String>>)
    ensures
        match r {
            Ok(iface) => iface@.len() > 0 && iface@ == cli@.positional(1),
            Err(e) => cli@.positional(1).len() == 0 && e@ == CommandError::Iface(
                if cli@.positionals.len() == 0 {
                    "release"@
                } else {
                    cli@.positionals[0]
                },
            ),
        },
{
    let iface: &str = cli.positional(1);
    if iface.is_empty() {
        let mode: String = if cli.positionals.len() == 0 {
            "release".to_owned()
        } else {
            cli.positionals[0].clone()
        };
        Err(CommandError::Iface(mode))
    } else {
        Ok(iface.to_owned())
    }
}

fn mode_plan(cli: &Cli, tune: GaitTune<Numeral>, planned: &str) -> (r: Result<
    Command<String, Numeral>,
    CommandError<String>,
>)
    ensures
        match r {
            Ok(c) => mode_command(cli@, tune@, planned@) == Ok::<_, CommandError<Seq<char>>>(c@),
            Err(e) => mode_command(cli@, tune@, planned@) == Err::<Command<Seq<char>, Seq<char>>, _>(
                e@,
            ),
        },
{
    proof {
        lemma_default_numbers();
    }
    let mode: &str = if cli.positionals.len() == 0 {
        "dump"
    } else {
        cli.positionals[0].as_str()
    };
    if same_text(mode, "dump") {
        Ok(Command::Dump { misa: misa_path(cli), tune })
    } else if same_text(mode, "intent") {
        Ok(
            Command::Intent {
                misa: misa_path(cli),
                vx: number_flag(cli, "vx", "0.05"),
                tune,
                viz: viz_cfg(cli, planned),
            },
        )
    } else if same_text(mode, "run") || same_text(mode, "diag") {
        if cli.positional(1).is_empty() {
            return Err(CommandError::RunIface(mode.to_owned()));
        }
        Ok(Command::Run(run_settings(cli, tune, planned)))
    } else if same_text(mode, "release") || same_text(mode, "restore") || same_text(
        mode,
        "checkmode",
    ) {
        match require_iface(cli) {
            Err(e) => Err(e),
            Ok(iface) => {
                if same_text(mode, "release") {
                    Ok(Command::Release { iface })
                } else if same_text(mode, "restore") {
                    Ok(Command::Restore { iface })
                } else {
                    Ok(Command::CheckMode { iface })
                }
            },
        }
    } else if same_text(mode, "util") {
        match plan_util(cli) {
            Ok(request) => Ok(Command::Util(request)),
            Err(e) => Err(CommandError::Util(e)),
        }
    } else {
        Err(CommandError::UnknownMode(mode.to_owned()))
    }
}

/// Reads off a command line what the program is to do.
pub fn plan_command(cli: &Cli, planned: &str) -> (r: Result<
    Command<String, Numeral>,
    CommandError<String>,
>)
    ensures
        match r {
            Ok(c) => command_asked(cli@, planned@) == Ok::<_, CommandError<Seq<char>>>(c@),
            Err(e) => command_asked(cli@, planned@) == Err::<Command<Seq<char>, Seq<char>>, _>(e@),
        },
        r matches Ok(Command::Dump { .. }) ==> mode_word(cli@) == "dump"@,
        r matches Ok(Command::Intent { vx, .. }) ==> mode_word(cli@) == "intent"@ && vx@
            == cli@.number_or("vx"@, "0.05"@),
        r matches Ok(Command::Release { iface }) ==> mode_word(cli@) == "release"@ && iface@
            == cli@.positional(1),
        r matches Ok(Command::Restore { iface }) ==> mode_word(cli@) == "restore"@ && iface@
            == cli@.positional(1),
        r matches Ok(Command::CheckMode { iface }) ==> mode_word(cli@) == "checkmode"@ && iface@
            == cli@.positional(1),
        r matches Ok(Command::Util(_)) ==> mode_word(cli@) == "util"@,
        r matches Ok(Command::Run(run)) ==> {
            &&& mode_word(cli@) == "run"@ || mode_word(cli@) == "diag"@
            &&& run.iface@ == cli@.positional(1)
            &&& run.vx@ == cli@.number_or("vx"@, "0.0"@)
            &&& run.inplace@ == cli@.number_or("inplace"@, "3.0"@)
            &&& run.forward@ == cli@.number_or("forward"@, "4.0"@)
            &&& run.kp@ == cli@.number_or("kp"@, "60.0"@)
            &&& run.kd@ == cli@.number_or("kd"@, "5.0"@)
            &&& run.ff == (cli@.is_on("ff"@) || cli@.is_on("grav-ff"@))
            &&& run.ff_scale@ == cli@.number_or("ff-scale"@, "1.0"@)
            &&& cli@.is_on("level"@) ==> run.level_gain@ == cli@.number_or("level-gain"@, "0.3"@)
            &&& !cli@.is_on("level"@) ==> run.level_gain@ == "0.0"@
            &&& match run.csv {
                Some(path) => cli@.value("csv"@) == Some(path@),
                None => cli@.value("csv"@) is None,
            }
            &&& run.led_3support == cli@.is_on("led-3support"@)
            &&& run.led_margin@ == cli@.number_or("led-margin"@, "0.1"@)
            &&& run.release == !cli@.is_on("no-release"@)
            &&& run.restore == cli@.is_on("restore"@)
        },
{
    if cli.has("help") || has_positional(cli, "-h") || has_positional(cli, "--help") {
        return Ok(Command::Help);
    }
    match gait_tune(cli) {
        Err(e) => Err(CommandError::Gait(e)),
        Ok(tune) => mode_plan(cli, tune, planned),
    }
}

/// What is told about the mode of the onboard controller, with its name shown as
/// `shown` and its form as `form`.
pub open spec fn mode_told(name: Seq<char>, shown: Seq<char>, form: Seq<char>) -> Seq<char> {
    if name.len() == 0 {
        "no mode active (sport_mode released)"@
    } else {
        "active mode: name="@ + shown + " form="@ + form
    }
}

/// What is told about the mode of the onboard controller, with its name shown as
/// `shown`.
pub fn mode_report_showing(name: &str, shown: &str, form: &str) -> (r: String)
    ensures
        r@ == mode_told(name@, shown@, form@),
{
    if name.is_empty() {
        "no mode active (sport_mode released)".to_owned()
    } else {
        let mut out: String = glue3("active mode: name=", shown, " form=");
        out.append(form);
        out
    }
}

/// What is told about the mode of the onboard controller.
pub fn mode_report(name: &str, form: &str) -> (r: String)
    ensures
        r@ == mode_told(name@, quoted_form(name@), form@),
{
    mode_report_showing(name, quoted(name).as_str(), form)
}

/// What is reported once the onboard controller is released; `count` is how many
/// modes that took.
pub fn release_report(count: u64) -> (r: String)
    ensures
        r@ == "sport_mode released ("@ + decimal(count as nat)
            + " mode(s) released); low-level control is now safe"@,
{
    glue3(
        "sport_mode released (",
        decimal_text(count).as_str(),
        " mode(s) released); low-level control is now safe",
    )
}

/// What is reported when a run cannot release the onboard controller.
pub fn release_failure(reason: &str) -> (r: String)
    ensures
        r@ == "error: failed to release sport_mode: "@ + reason@
            + "\n(pass --no-release if you released it some other way)"@,
{
    glue3(
        "error: failed to release sport_mode: ",
        reason,
        "\n(pass --no-release if you released it some other way)",
    )
}

/// `diag` is another word for `run`: with an interface given, both ask for the
/// same.
pub proof fn diag_is_run(args: CliText, planned: Seq<char>)
    requires
        args.positionals.len() > 1,
        args.positionals[1].len() > 0,
    ensures
        ({
            let run = CliText { positionals: args.positionals.update(0, "run"@), flags: args.flags };
            let diag = CliText {
                positionals: args.positionals.update(0, "diag"@),
                flags: args.flags,
            };
            command_asked(run, planned) == command_asked(diag, planned)
        }),
{
    reveal_strlit("dump");
    reveal_strlit("intent");
    reveal_strlit("run");
    reveal_strlit("diag");
    reveal_strlit("-h");
    reveal_strlit("--help");
    assert("run"@.len() == 3 && "intent"@.len() == 6 && "dump"@.len() == 4);
    assert("diag"@.len() == 4 && "diag"@[1] == 'i' && "dump"@[1] == 'u');
    assert("-h"@.len() == 2 && "--help"@.len() == 6);
    let run = CliText { positionals: args.positionals.update(0, "run"@), flags: args.flags };
    let diag = CliText { positionals: args.positionals.update(0, "diag"@), flags: args.flags };
    assert(asks_help(run) == asks_help(diag)) by {
        lemma_first_word_is_no_help(args.positionals, "run"@, "diag"@, "-h"@);
        lemma_first_word_is_no_help(args.positionals, "run"@, "diag"@, "--help"@);
    }
    assert(tune_asked(run) == tune_asked(diag));
    if tune_asked(run) is Ok {
        let tune = tune_asked(run)->Ok_0;
        assert(run.positional(1) == diag.positional(1));
        assert(run_asked(run, tune, planned) == run_asked(diag, tune, planned));
    }
}

proof fn lemma_first_word_is_no_help(
    words: Seq<Seq<char>>,
    a: Seq<char>,
    b: Seq<char>,
    help: Seq<char>,
)
    requires
        words.len() > 0,
        a != help,
        b != help,
    ensures
        words.update(0, a).contains(help) == words.update(0, b).contains(help),
{
    let x = words.update(0, a);
    let y = words.update(0, b);
    if x.contains(help) {
        let i = choose|i: int| 0 <= i < x.len() && x[i] == help;
        assert(y[i] == help);
    }
    if y.contains(help) {
        let i = choose|i: int| 0 <= i < y.len() && y[i] == help;
        assert(x[i] == help);
    }
}

/// Help goes before everything else, whatever else the command line says.
pub proof fn help_goes_first(cli: CliText, planned: Seq<char>)
    requires
        asks_help(cli),
    ensures
        command_asked(cli, planned) == Ok::<_, CommandError<Seq<char>>>(
            Command::<Seq<char>, Seq<char>>::Help,
        ),
{
}

/// An unknown gait is refused before the mode is looked at.
pub proof fn unknown_gait_is_refused(cli: CliText, planned: Seq<char>)
    requires
        !asks_help(cli),
        tune_asked(cli) is Err,
    ensures
        command_asked(cli, planned) == Err::<Command<Seq<char>, Seq<char>>, _>(
            CommandError::Gait(tune_asked(cli)->Err_0),
        ),
        CommandError::Gait(tune_asked(cli)->Err_0).status() == 1,
{
}

/// Help is asked for by the flag `--help`, whatever its value, or by the word `-h`
/// anywhere; nothing else shows it.
pub proof fn help_is_asked_for(cli: CliText, planned: Seq<char>, i: int)
    ensures
        cli.flags.contains_key("help"@) ==> command_asked(cli, planned) matches Ok(Command::Help),
        0 <= i < cli.positionals.len() && (cli.positionals[i] == "-h"@ || cli.positionals[i]
            == "--help"@) ==> command_asked(cli, planned) matches Ok(Command::Help),
        command_asked(cli, planned) matches Ok(Command::Help) ==> cli.flags.contains_key("help"@)
            || cli.positionals.contains("-h"@) || cli.positionals.contains("--help"@),
{
    if 0 <= i < cli.positionals.len() {
        assert(cli.positionals.contains(cli.positionals[i]));
    }
}

/// What each mode does. The mode is the first word, `dump` where there is none; the
/// interface is the second word, and the modes that talk to the robot are refused
/// without it.
pub proof fn modes_have_their_commands(cli: CliText, planned: Seq<char>)
    requires
        !asks_help(cli),
        tune_asked(cli) is Ok,
    ensures
        ({
            let tune = tune_asked(cli)->Ok_0;
            let asked = command_asked(cli, planned);
            let mode = cli.positionals[0];
            let named = cli.positionals.len() > 0;
            let wired = cli.positionals.len() > 1 && cli.positionals[1].len() > 0;
            &&& !named ==> (asked matches Ok(Command::Dump { tune: t, .. }) && t == tune)
            &&& named && mode == "dump"@ ==> (asked matches Ok(Command::Dump { tune: t, .. }) && t
                == tune)
            &&& named && mode == "intent"@ ==> (asked matches Ok(Command::Intent { tune: t, .. })
                && t == tune)
            &&& named && wired && (mode == "run"@ || mode == "diag"@) ==> (asked matches Ok(
                Command::Run(run),
            ) && run.tune == tune && run.iface == cli.positionals[1])
            &&& named && wired && mode == "release"@ ==> asked == Ok::<_, CommandError<Seq<char>>>(
                Command::<Seq<char>, Seq<char>>::Release { iface: cli.positionals[1] },
            )
            &&& named && wired && mode == "restore"@ ==> asked == Ok::<_, CommandError<Seq<char>>>(
                Command::<Seq<char>, Seq<char>>::Restore { iface: cli.positionals[1] },
            )
            &&& named && wired && mode == "checkmode"@ ==> asked == Ok::<
                _,
                CommandError<Seq<char>>,
            >(Command::<Seq<char>, Seq<char>>::CheckMode { iface: cli.positionals[1] })
            &&& named && !wired && (mode == "run"@ || mode == "diag"@) ==> asked == Err::<
                Command<Seq<char>, Seq<char>>,
                _,
            >(CommandError::RunIface(mode))
            &&& named && !wired && (mode == "release"@ || mode == "restore"@ || mode
                == "checkmode"@) ==> asked == Err::<Command<Seq<char>, Seq<char>>, _>(
                CommandError::Iface(mode),
            )
            &&& named && mode == "util"@ ==> asked == (match util_asked(cli) {
                Ok(request) => Ok(Command::<Seq<char>, Seq<char>>::Util(request)),
                Err(e) => Err(CommandError::Util(e)),
            })
            &&& named && mode != "dump"@ && mode != "intent"@ && mode != "run"@ && mode != "diag"@
                && mode != "release"@ && mode != "restore"@ && mode != "checkmode"@ && mode
                != "util"@ ==> asked == Err::<Command<Seq<char>, Seq<char>>, _>(
                CommandError::UnknownMode(mode),
            )
        }),
{
    reveal_strlit("dump");
    reveal_strlit("intent");
    reveal_strlit("run");
    reveal_strlit("diag");
    reveal_strlit("release");
    reveal_strlit("restore");
    reveal_strlit("checkmode");
    reveal_strlit("util");
    assert("dump"@.len() == 4 && "intent"@.len() == 6 && "run"@.len() == 3 && "diag"@.len() == 4);
    assert("release"@.len() == 7 && "restore"@.len() == 7 && "checkmode"@.len() == 9);
    assert("util"@.len() == 4 && "dump"@[1] == 'u' && "diag"@[1] == 'i' && "util"@[1] == 't');
    assert("release"@[2] == 'l' && "restore"@[2] == 's');
}

/// Each number of a run comes from its own flag.
pub proof fn run_numbers_come_from_their_flags(
    cli: CliText,
    planned: Seq<char>,
    key: Seq<char>,
    n: Seq<char>,
)
    requires
        command_asked(cli, planned) matches Ok(Command::Run(_)),
        cli.flags.contains_key(key),
        cli.flags[key] == n,
        is_number_text(n),
    ensures
        command_asked(cli, planned) matches Ok(Command::Run(run)) ==> {
            &&& key == "vx"@ ==> run.vx == n
            &&& key == "inplace"@ ==> run.inplace == n
            &&& key == "forward"@ ==> run.forward == n
            &&& key == "kp"@ ==> run.kp == n
            &&& key == "kd"@ ==> run.kd == n
            &&& key == "ff-scale"@ ==> run.ff_scale == n
            &&& key == "level-gain"@ ==> run.level_gain == (if cli.is_on("level"@) {
                n
            } else {
                "0.0"@
            })
            &&& key == "led-margin"@ ==> run.led_margin == n
        },
        command_asked(cli, planned) matches Ok(Command::Intent { vx, .. }) ==> key == "vx"@ ==> vx
            == n,
{
}

/// What a run does where a number is missing or cannot be read.
pub proof fn run_numbers_have_their_defaults(cli: CliText, planned: Seq<char>, key: Seq<char>)
    requires
        cli.flags.contains_key(key) ==> !is_number_text(cli.flags[key]),
    ensures
        command_asked(cli, planned) matches Ok(Command::Run(run)) ==> {
            &&& key == "vx"@ ==> run.vx == "0.0"@
            &&& key == "inplace"@ ==> run.inplace == "3.0"@
            &&& key == "forward"@ ==> run.forward == "4.0"@
            &&& key == "kp"@ ==> run.kp == "60.0"@
            &&& key == "kd"@ ==> run.kd == "5.0"@
            &&& key == "ff-scale"@ ==> run.ff_scale == "1.0"@
            &&& key == "level-gain"@ ==> run.level_gain == (if cli.is_on("level"@) {
                "0.3"@
            } else {
                "0.0"@
            })
            &&& key == "led-margin"@ ==> run.led_margin == "0.1"@
        },
        command_asked(cli, planned) matches Ok(Command::Intent { vx, .. }) ==> key == "vx"@ ==> vx
            == "0.05"@,
{
}

/// The switches and the texts of a run: support by torque under either name, the
/// LED, restoring, not releasing, the telemetry file and the robot model.
pub proof fn run_switches_have_their_flags(cli: CliText, planned: Seq<char>)
    ensures
        command_asked(cli, planned) matches Ok(Command::Run(run)) ==> {
            &&& cli.is_on("ff"@) ==> run.ff
            &&& cli.is_on("grav-ff"@) ==> run.ff
            &&& !cli.is_on("ff"@) && !cli.is_on("grav-ff"@) ==> !run.ff
            &&& run.led_3support <==> cli.is_on("led-3support"@)
            &&& run.release <==> !cli.is_on("no-release"@)
            &&& run.restore <==> cli.is_on("restore"@)
            &&& cli.flags.contains_key("csv"@) ==> run.csv == Some(cli.flags["csv"@])
            &&& !cli.flags.contains_key("csv"@) ==> run.csv is None
            &&& cli.flags.contains_key("misa"@) ==> run.misa == cli.flags["misa"@]
            &&& !cli.flags.contains_key("misa"@) ==> run.misa == "models/unitree_go2/go2.misa"@
            &&& run.viz == viz_asked(cli, planned)
        },
        command_asked(cli, planned) matches Ok(Command::Intent { misa, viz, .. }) ==> {
            &&& cli.flags.contains_key("misa"@) ==> misa == cli.flags["misa"@]
            &&& !cli.flags.contains_key("misa"@) ==> misa == "models/unitree_go2/go2.misa"@
            &&& viz == viz_asked(cli, planned)
        },
        command_asked(cli, planned) matches Ok(Command::Dump { misa, .. }) ==> {
            &&& cli.flags.contains_key("misa"@) ==> misa == cli.flags["misa"@]
            &&& !cli.flags.contains_key("misa"@) ==> misa == "models/unitree_go2/go2.misa"@
        },
{
}

} // verus!
