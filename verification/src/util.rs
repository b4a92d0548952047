//! Auxiliary commands: the LiDAR switch and the head LED.

use vstd::prelude::*;

use crate::cli::Cli;
use crate::cli::CliText;
use crate::numbers::decimal;
use crate::numbers::decimal_reads_back;
use crate::numbers::decimal_text;
use crate::numbers::is_digit;
use crate::numbers::parse_i32;
use crate::numbers::parse_u32;
use crate::numbers::read_i32;
use crate::numbers::read_signed;
use crate::numbers::read_u32;
use crate::numbers::read_unsigned;
use crate::numbers::signed_decimal;
use crate::numbers::signed_decimal_reads_back;
use crate::numbers::signed_text;
use crate::quote::quoted;
use crate::quote::quoted_form;
use crate::text::glue3;
use crate::text::same_text;

verus! {

/// The service that drives the head LED.
pub const VUI_SERVICE: &'static str = "vui";

/// The call that switches the head LED on and off.
pub const VUI_API_ID_SET_SWITCH: i64 = 1001;

/// The call that sets the brightness of the head LED.
pub const VUI_API_ID_SET_BRIGHTNESS: i64 = 1005;

/// The call that sets the colour of the head LED.
pub const VUI_API_ID_SET_LED_COLOR: i64 = 1007;

/// The colours that the head LED has.
pub open spec fn is_led_color(color: Seq<char>) -> bool {
    ||| color == "white"@
    ||| color == "red"@
    ||| color == "yellow"@
    ||| color == "blue"@
    ||| color == "green"@
    ||| color == "cyan"@
    ||| color == "purple"@
}

/// A call to the LED service: its number and its parameter. `S` is how texts are
/// held.
#[derive(Debug)]
pub struct VuiRequest<S> {
    pub api_id: i64,
    pub parameter: S,
}

impl View for VuiRequest<String> {
    type V = VuiRequest<Seq<char>>;

    open spec fn view(&self) -> VuiRequest<Seq<char>> {
        VuiRequest { api_id: self.api_id, parameter: self.parameter@ }
    }
}

/// The call that switches the LED.
pub open spec fn switch_request(on: bool) -> VuiRequest<Seq<char>> {
    VuiRequest {
        api_id: VUI_API_ID_SET_SWITCH,
        parameter: "{\"enable\":"@ + decimal(
            if on {
                1nat
            } else {
                0nat
            },
        ) + "}"@,
    }
}

/// The call that sets the LED's brightness.
pub open spec fn brightness_request(level: int) -> VuiRequest<Seq<char>> {
    VuiRequest {
        api_id: VUI_API_ID_SET_BRIGHTNESS,
        parameter: "{\"brightness\":"@ + signed_decimal(level) + "}"@,
    }
}

/// The call that sets the LED's colour for some seconds, blinking where a cycle
/// is given.
pub open spec fn color_request(
    color: Seq<char>,
    secs: nat,
    flash: Option<u32>,
) -> VuiRequest<Seq<char>> {
    let head = "{\"color\":\""@ + color + "\",\"time\":"@ + decimal(secs);
    VuiRequest {
        api_id: VUI_API_ID_SET_LED_COLOR,
        parameter: match flash {
            Some(ms) => head + ",\"flash_cycle\":"@ + decimal(ms as nat) + "}"@,
            None => head + "}"@,
        },
    }
}

/// Why an auxiliary command is refused. `S` is how texts are held.
#[derive(Debug)]
pub enum UtilError<S> {
    /// Neither `on` nor `off` for the LiDAR.
    LidarMode(S),
    /// The LiDAR command lacks the interface.
    LidarUsage,
    /// The LED command lacks an argument.
    LedUsage,
    /// The LED colour command lacks an argument.
    LedColorUsage,
    /// The seconds are no number.
    Secs(S),
    /// The blink cycle is no number.
    FlashMs(S),
    /// No command.
    NoCommand,
    /// An unknown command.
    UnknownCommand(S),
    /// Neither `on`, `off` nor a number for the LED.
    LedMode(S),
    /// A brightness out of range.
    LedBrightness(i32),
    /// A colour that the LED does not have.
    LedColor(S),
    /// A colour that would hold for no time.
    LedDuration,
    /// A blink cycle out of range for the seconds.
    LedFlash { secs: u32, ms: u32 },
}

impl View for UtilError<String> {
    type V = UtilError<Seq<char>>;

    open spec fn view(&self) -> UtilError<Seq<char>> {
        match self {
            UtilError::LidarMode(s) => UtilError::LidarMode(s@),
            UtilError::LidarUsage => UtilError::LidarUsage,
            UtilError::LedUsage => UtilError::LedUsage,
            UtilError::LedColorUsage => UtilError::LedColorUsage,
            UtilError::Secs(s) => UtilError::Secs(s@),
            UtilError::FlashMs(s) => UtilError::FlashMs(s@),
            UtilError::NoCommand => UtilError::NoCommand,
            UtilError::UnknownCommand(s) => UtilError::UnknownCommand(s@),
            UtilError::LedMode(s) => UtilError::LedMode(s@),
            UtilError::LedBrightness(level) => UtilError::LedBrightness(*level),
            UtilError::LedColor(s) => UtilError::LedColor(s@),
            UtilError::LedDuration => UtilError::LedDuration,
            UtilError::LedFlash { secs, ms } => UtilError::LedFlash { secs: *secs, ms: *ms },
        }
    }
}

impl UtilError<Seq<char>> {
    /// The text that was given and is quoted in the message.
    pub open spec fn given(self) -> Seq<char> {
        match self {
            UtilError::LidarMode(s) => s,
            UtilError::Secs(s) => s,
            UtilError::FlashMs(s) => s,
            UtilError::UnknownCommand(s) => s,
            UtilError::LedMode(s) => s,
            UtilError::LedColor(s) => s,
            _ => Seq::empty(),
        }
    }

    /// The message, with the given text quoted as `shown`.
    pub open spec fn message(self, shown: Seq<char>) -> Seq<char> {
        match self {
            UtilError::LidarMode(_) =>
            "usage: go2-gait-runner util lidar <on|off> <iface>   (got mode "@ + shown + ")"@,
            UtilError::LidarUsage => "usage: go2-gait-runner util lidar <on|off> <iface>"@,
            UtilError::LedUsage => "usage: go2-gait-runner util led <on|off|0..10> <iface>"@,
            UtilError::LedColorUsage =>
            "usage: go2-gait-runner util led-color <white|red|yellow|blue|green|cyan|purple> <iface> [secs] [flash_ms]"@,
            UtilError::Secs(_) => "secs must be a positive integer (got "@ + shown + ")"@,
            UtilError::FlashMs(_) => "flash_ms must be an integer (got "@ + shown + ")"@,
            UtilError::NoCommand =>
            "usage: go2-gait-runner util <cmd> <mode> <iface>   (cmd: lidar|led|led-color)"@,
            UtilError::UnknownCommand(_) => "unknown util cmd "@ + shown
                + " (supported: lidar, led, led-color)"@,
            UtilError::LedMode(_) => "led mode must be on|off|0..10 (got "@ + shown + ")"@,
            UtilError::LedBrightness(level) => "led brightness must be 0..10 (got "@
                + signed_decimal(level as int) + ")"@,
            UtilError::LedColor(_) =>
            "led colour must be one of [\"white\", \"red\", \"yellow\", \"blue\", \"green\", \"cyan\", \"purple\"] (got "@
                + shown + ")"@,
            UtilError::LedDuration => "led colour duration (secs) must be >= 1"@,
            UtilError::LedFlash { secs, ms } => "led flash cycle must be 499..="@ + decimal(
                secs as nat * 1000,
            ) + " ms for a "@ + decimal(secs as nat) + "s hold (got "@ + decimal(ms as nat)
                + ")"@,
        }
    }
}

impl UtilError<String> {
    /// The text that was given and is quoted in the message.
    pub(crate) fn given_text(&self) -> (r: &str)
        ensures
            r@ == self@.given(),
    {
        match self {
            UtilError::LidarMode(s) => s.as_str(),
            UtilError::Secs(s) => s.as_str(),
            UtilError::FlashMs(s) => s.as_str(),
            UtilError::UnknownCommand(s) => s.as_str(),
            UtilError::LedMode(s) => s.as_str(),
            UtilError::LedColor(s) => s.as_str(),
            _ => {
                proof {
                    reveal_strlit("");
                }
                assert(""@ =~= Seq::<char>::empty());
                ""
            },
        }
    }

    /// The message, with the given text quoted as `shown`.
    pub fn message_showing(&self, shown: &str) -> (r: String)
        ensures
            r@ == self@.message(shown@),
    {
        match self {
            UtilError::LidarMode(_) => glue3(
                "usage: go2-gait-runner util lidar <on|off> <iface>   (got mode ",
                shown,
                ")",
            ),
            UtilError::LidarUsage =>
            "usage: go2-gait-runner util lidar <on|off> <iface>".to_owned(),
            UtilError::LedUsage =>
            "usage: go2-gait-runner util led <on|off|0..10> <iface>".to_owned(),
            UtilError::LedColorUsage =>
            "usage: go2-gait-runner util led-color <white|red|yellow|blue|green|cyan|purple> <iface> [secs] [flash_ms]".to_owned(),
            UtilError::Secs(_) => glue3("secs must be a positive integer (got ", shown, ")"),
            UtilError::FlashMs(_) => glue3("flash_ms must be an integer (got ", shown, ")"),
            UtilError::NoCommand =>
            "usage: go2-gait-runner util <cmd> <mode> <iface>   (cmd: lidar|led|led-color)".to_owned(),
            UtilError::UnknownCommand(_) => glue3(
                "unknown util cmd ",
                shown,
                " (supported: lidar, led, led-color)",
            ),
            UtilError::LedMode(_) => glue3("led mode must be on|off|0..10 (got ", shown, ")"),
            UtilError::LedBrightness(level) => glue3(
                "led brightness must be 0..10 (got ",
                signed_text(*level as i64).as_str(),
                ")",
            ),
            UtilError::LedColor(_) => glue3(
                "led colour must be one of [\"white\", \"red\", \"yellow\", \"blue\", \"green\", \"cyan\", \"purple\"] (got ",
                shown,
                ")",
            ),
            UtilError::LedDuration => "led colour duration (secs) must be >= 1".to_owned(),
            UtilError::LedFlash { secs, ms } => {
                let mut out: String = glue3(
                    "led flash cycle must be 499..=",
                    decimal_text(*secs as u64 * 1000).as_str(),
                    " ms for a ",
                );
                out.append(decimal_text(*secs as u64).as_str());
                out.append("s hold (got ");
                out.append(decimal_text(*ms as u64).as_str());
                out.append(")");
                out
            },
        }
    }

    /// The message, with the given text in quotation marks.
    pub fn message(&self) -> (r: String)
        ensures
            r@ == self@.message(quoted_form(self@.given())),
    {
        self.message_showing(quoted(self.given_text()).as_str())
    }
}

/// An auxiliary command as it is asked for. `S` is how texts are held.
#[derive(Debug)]
pub enum UtilRequest<S> {
    /// Switch the LiDAR.
    Lidar { iface: S, on: bool },
    /// Switch the LED, or set its brightness.
    Led { iface: S, mode: S },
    /// Set the LED's colour.
    LedColor { iface: S, color: S, secs: u32, flash: Option<u32> },
}

impl View for UtilRequest<String> {
    type V = UtilRequest<Seq<char>>;

    open spec fn view(&self) -> UtilRequest<Seq<char>> {
        match self {
            UtilRequest::Lidar { iface, on } => UtilRequest::Lidar { iface: iface@, on: *on },
            UtilRequest::Led { iface, mode } => UtilRequest::Led { iface: iface@, mode: mode@ },
            UtilRequest::LedColor { iface, color, secs, flash } => UtilRequest::LedColor {
                iface: iface@,
                color: color@,
                secs: *secs,
                flash: *flash,
            },
        }
    }
}

/// The LiDAR command that a command line asks for.
pub open spec fn lidar_asked(
    cli: CliText,
) -> Result<UtilRequest<Seq<char>>, UtilError<Seq<char>>> {
    let mode = cli.positional(2);
    let iface = cli.positional(3);
    if mode != "on"@ && mode != "off"@ {
        Err(UtilError::LidarMode(mode))
    } else if iface.len() == 0 {
        Err(UtilError::LidarUsage)
    } else {
        Ok(UtilRequest::Lidar { iface, on: mode == "on"@ })
    }
}

/// The LED command that a command line asks for.
pub open spec fn led_asked(cli: CliText) -> Result<UtilRequest<Seq<char>>, UtilError<Seq<char>>> {
    let mode = cli.positional(2);
    let iface = cli.positional(3);
    if mode.len() == 0 || iface.len() == 0 {
        Err(UtilError::LedUsage)
    } else {
        Ok(UtilRequest::Led { iface, mode })
    }
}

/// The seconds that an LED colour holds: 5 unless they are given.
pub open spec fn secs_asked(cli: CliText) -> Result<u32, UtilError<Seq<char>>> {
    if cli.positionals.len() <= 4 {
        Ok(5)
    } else {
        match read_u32(cli.positionals[4]) {
            Some(secs) => Ok(secs),
            None => Err(UtilError::Secs(cli.positionals[4])),
        }
    }
}

/// The blink cycle of an LED colour: none unless it is given.
pub open spec fn flash_asked(cli: CliText) -> Result<Option<u32>, UtilError<Seq<char>>> {
    if cli.positionals.len() <= 5 {
        Ok(None)
    } else {
        match read_u32(cli.positionals[5]) {
            Some(ms) => Ok(Some(ms)),
            None => Err(UtilError::FlashMs(cli.positionals[5])),
        }
    }
}

/// The LED colour command that a command line asks for.
pub open spec fn led_color_asked(
    cli: CliText,
) -> Result<UtilRequest<Seq<char>>, UtilError<Seq<char>>> {
    let color = cli.positional(2);
    let iface = cli.positional(3);
    if color.len() == 0 || iface.len() == 0 {
        Err(UtilError::LedColorUsage)
    } else {
        match (secs_asked(cli), flash_asked(cli)) {
            (Err(e), _) => Err(e),
            (_, Err(e)) => Err(e),
            (Ok(secs), Ok(flash)) => Ok(UtilRequest::LedColor { iface, color, secs, flash }),
        }
    }
}

/// The auxiliary command that a command line asks for.
pub open spec fn util_asked(cli: CliText) -> Result<UtilRequest<Seq<char>>, UtilError<Seq<char>>> {
    let cmd = cli.positional(1);
    if cmd == "lidar"@ {
        lidar_asked(cli)
    } else if cmd == "led"@ {
        led_asked(cli)
    } else if cmd == "led-color"@ || cmd == "led-colour"@ {
        led_color_asked(cli)
    } else if cmd.len() == 0 {
        Err(UtilError::NoCommand)
    } else {
        Err(UtilError::UnknownCommand(cmd))
    }
}

/// Reads an auxiliary command off a command line.
pub fn plan_util(cli: &Cli) -> (r: Result<UtilRequest<String>, UtilError<String>>)
    ensures
        match r {
            Ok(request) => util_asked(cli@) == Ok::<_, UtilError<Seq<char>>>(request@),
            Err(e) => util_asked(cli@) == Err::<UtilRequest<Seq<char>>, _>(e@),
        },
        r matches Ok(UtilRequest::Lidar { iface, on }) ==> iface@ == cli@.positional(3)
            && cli@.positional(2) == (if on { "on"@ } else { "off"@ }),
        r matches Ok(UtilRequest::Led { iface, mode }) ==> iface@ == cli@.positional(3) && mode@
            == cli@.positional(2),
        r matches Ok(UtilRequest::LedColor { iface, color, secs, flash }) ==> {
            &&& iface@ == cli@.positional(3)
            &&& color@ == cli@.positional(2)
            &&& cli@.positionals.len() > 4 ==> read_u32(cli@.positional(4)) == Some(secs)
            &&& cli@.positionals.len() <= 4 ==> secs == 5
            &&& cli@.positionals.len() > 5 ==> flash is Some && read_u32(cli@.positional(5))
                == flash
            &&& cli@.positionals.len() <= 5 ==> flash is None
        },
{
    proof {
        reveal_strlit("lidar");
        reveal_strlit("led");
        reveal_strlit("led-color");
        reveal_strlit("led-colour");
        reveal_strlit("on");
        reveal_strlit("off");
    }
    let cmd: &str = cli.positional(1);
    let mode: &str = cli.positional(2);
    let iface: &str = cli.positional(3);
    if same_text(cmd, "lidar") {
        let on: bool = same_text(mode, "on");
        if !on && !same_text(mode, "off") {
            return Err(UtilError::LidarMode(mode.to_owned()));
        }
        if iface.is_empty() {
            return Err(UtilError::LidarUsage);
        }
        Ok(UtilRequest::Lidar { iface: iface.to_owned(), on })
    } else if same_text(cmd, "led") {
        if mode.is_empty() || iface.is_empty() {
            return Err(UtilError::LedUsage);
        }
        Ok(UtilRequest::Led { iface: iface.to_owned(), mode: mode.to_owned() })
    } else if same_text(cmd, "led-color") || same_text(cmd, "led-colour") {
        if mode.is_empty() || iface.is_empty() {
            return Err(UtilError::LedColorUsage);
        }
        let secs: u32 = if cli.positionals.len() <= 4 {
            5
        } else {
            match parse_u32(cli.positionals[4].as_str()) {
                Some(secs) => secs,
                None => {
                    return Err(UtilError::Secs(cli.positionals[4].clone()));
                },
            }
        };
        let flash: Option<u32> = if cli.positionals.len() <= 5 {
            None
        } else {
            match parse_u32(cli.positionals[5].as_str()) {
                Some(ms) => Some(ms),
                None => {
                    return Err(UtilError::FlashMs(cli.positionals[5].clone()));
                },
            }
        };
        Ok(UtilRequest::LedColor { iface: iface.to_owned(), color: mode.to_owned(), secs, flash })
    } else if cmd.is_empty() {
        Err(UtilError::NoCommand)
    } else {
        Err(UtilError::UnknownCommand(cmd.to_owned()))
    }
}

/// What is reported once the LiDAR is switched.
pub open spec fn lidar_told(on: bool) -> Seq<char> {
    "LiDAR "@ + (if on {
        "ON"@
    } else {
        "OFF"@
    }) + " (published to rt/utlidar/switch)"@
}

/// What is reported once the LiDAR is switched.
pub fn lidar_report(on: bool) -> (r: String)
    ensures
        r@ == lidar_told(on),
        on ==> r@ == "LiDAR "@ + "ON"@ + " (published to rt/utlidar/switch)"@,
        !on ==> r@ == "LiDAR "@ + "OFF"@ + " (published to rt/utlidar/switch)"@,
{
    let state: &'static str = if on {
        "ON"
    } else {
        "OFF"
    };
    glue3("LiDAR ", state, " (published to rt/utlidar/switch)")
}

/// What an LED command does. `S` is how texts are held.
#[derive(Debug)]
pub struct LedCommand<S> {
    pub request: VuiRequest<S>,
    /// What is reported once the call has succeeded.
    pub report: S,
}

impl View for LedCommand<String> {
    type V = LedCommand<Seq<char>>;

    open spec fn view(&self) -> LedCommand<Seq<char>> {
        LedCommand { request: self.request@, report: self.report@ }
    }
}

/// The call that an LED mode asks for: `on` and `off` switch it, a number from 0
/// to 10 is its brightness.
pub open spec fn led_command(mode: Seq<char>) -> Result<LedCommand<Seq<char>>, UtilError<Seq<char>>> {
    if mode == "on"@ {
        Ok(
            LedCommand {
                request: switch_request(true),
                report: "head LED ON (vui SetSwitch, enable=1)"@,
            },
        )
    } else if mode == "off"@ {
        Ok(
            LedCommand {
                request: switch_request(false),
                report: "head LED OFF (vui SetSwitch, enable=0)"@,
            },
        )
    } else {
        match read_i32(mode) {
            None => Err(UtilError::LedMode(mode)),
            Some(level) => if 0 <= level <= 10 {
                Ok(
                    LedCommand {
                        request: brightness_request(level as int),
                        report: "head LED brightness = "@ + signed_decimal(level as int)
                            + "/10 (vui SetBrightness)"@,
                    },
                )
            } else {
                Err(UtilError::LedBrightness(level))
            },
        }
    }
}

/// The call that switches the LED.
pub fn led_switch(on: bool) -> (r: VuiRequest<String>)
    ensures
        r@ == switch_request(on),
        r.api_id == 1001,
        r.parameter@ == "{\"enable\":"@ + (if on { seq!['1'] } else { seq!['0'] }) + "}"@,
{
    proof {
        assert(decimal(1) =~= seq!['1']);
        assert(decimal(0) =~= seq!['0']);
    }
    let enable: u64 = if on {
        1
    } else {
        0
    };
    VuiRequest {
        api_id: VUI_API_ID_SET_SWITCH,
        parameter: glue3("{\"enable\":", decimal_text(enable).as_str(), "}"),
    }
}

/// The call that sets the LED's brightness.
pub fn led_brightness(level: i32) -> (r: VuiRequest<String>)
    ensures
        r@ == brightness_request(level as int),
        r.api_id == 1005,
        r.parameter@ == "{\"brightness\":"@ + signed_decimal(level as int) + "}"@,
{
    VuiRequest {
        api_id: VUI_API_ID_SET_BRIGHTNESS,
        parameter: glue3("{\"brightness\":", signed_text(level as i64).as_str(), "}"),
    }
}

/// The call that an LED mode asks for.
pub fn led_mode(mode: &str) -> (r: Result<LedCommand<String>, UtilError<String>>)
    ensures
        match r {
            Ok(command) => led_command(mode@) == Ok::<_, UtilError<Seq<char>>>(command@),
            Err(e) => led_command(mode@) == Err::<LedCommand<Seq<char>>, _>(e@),
        },
{
    if same_text(mode, "on") {
        return Ok(
            LedCommand {
                request: led_switch(true),
                report: "head LED ON (vui SetSwitch, enable=1)".to_owned(),
            },
        );
    }
    if same_text(mode, "off") {
        return Ok(
            LedCommand {
                request: led_switch(false),
                report: "head LED OFF (vui SetSwitch, enable=0)".to_owned(),
            },
        );
    }
    match parse_i32(mode) {
        None => Err(UtilError::LedMode(mode.to_owned())),
        Some(level) => {
            if 0 <= level && level <= 10 {
                Ok(
                    LedCommand {
                        request: led_brightness(level),
                        report: glue3(
                            "head LED brightness = ",
                            signed_text(level as i64).as_str(),
                            "/10 (vui SetBrightness)",
                        ),
                    },
                )
            } else {
                Err(UtilError::LedBrightness(level))
            }
        },
    }
}

/// Whether the LED has a colour.
fn led_has_color(color: &str) -> (r: bool)
    ensures
        r == is_led_color(color@),
{
    same_text(color, "white") || same_text(color, "red") || same_text(color, "yellow") || same_text(
        color,
        "blue",
    ) || same_text(color, "green") || same_text(color, "cyan") || same_text(color, "purple")
}

/// What is reported once the LED's colour is set.
pub open spec fn color_report(color: Seq<char>, secs: nat, flash: Option<u32>) -> Seq<char> {
    let head = "head LED colour = "@ + color + " for "@ + decimal(secs);
    match flash {
        Some(ms) => head + "s, flashing every "@ + decimal(ms as nat)
            + "ms (vui SetLedColor, api 1007)"@,
        None => head + "s (vui SetLedColor, api 1007)"@,
    }
}

/// The call that sets the LED's colour: one of its colours, for at least a
/// second, blinking with a cycle from 499 ms to the whole time.
pub open spec fn led_color_command(
    color: Seq<char>,
    secs: u32,
    flash: Option<u32>,
) -> Result<LedCommand<Seq<char>>, UtilError<Seq<char>>> {
    if !is_led_color(color) {
        Err(UtilError::LedColor(color))
    } else if secs == 0 {
        Err(UtilError::LedDuration)
    } else if flash matches Some(ms) && !(499 <= ms <= secs * 1000) {
        Err(UtilError::LedFlash { secs, ms: flash->0 })
    } else {
        Ok(
            LedCommand {
                request: color_request(color, secs as nat, flash),
                report: color_report(color, secs as nat, flash),
            },
        )
    }
}

/// The call that sets the LED's colour.
pub fn util_led_color(color: &str, secs: u32, flash: Option<u32>) -> (r: Result<
    LedCommand<String>,
    UtilError<String>,
>)
    ensures
        match r {
            Ok(command) => led_color_command(color@, secs, flash) == Ok::<_, UtilError<Seq<char>>>(
                command@,
            ),
            Err(e) => led_color_command(color@, secs, flash) == Err::<LedCommand<Seq<char>>, _>(e@),
        },
{
    if !led_has_color(color) {
        return Err(UtilError::LedColor(color.to_owned()));
    }
    if secs == 0 {
        return Err(UtilError::LedDuration);
    }
    let secs_text: String = decimal_text(secs as u64);
    let mut parameter: String = glue3("{\"color\":\"", color, "\",\"time\":");
    parameter.append(secs_text.as_str());
    let mut report: String = glue3("head LED colour = ", color, " for ");
    report.append(secs_text.as_str());
    match flash {
        Some(ms) => {
            let longest: u64 = secs as u64 * 1000;
            if (ms as u64) < 499 || (ms as u64) > longest {
                return Err(UtilError::LedFlash { secs, ms });
            }
            let ms_text: String = decimal_text(ms as u64);
            parameter.append(",\"flash_cycle\":");
            parameter.append(ms_text.as_str());
            report.append("s, flashing every ");
            report.append(ms_text.as_str());
            report.append("ms (vui SetLedColor, api 1007)");
        },
        None => {
            report.append("s (vui SetLedColor, api 1007)");
        },
    }
    parameter.append("}");
    Ok(LedCommand { request: VuiRequest { api_id: VUI_API_ID_SET_LED_COLOR, parameter }, report })
}

/// The message of a refusal, with the given text in quotation marks.
pub open spec fn refusal(e: UtilError<Seq<char>>) -> Seq<char> {
    e.message(quoted_form(e.given()))
}

/// The call that an LED mode asks for, once it is known how the opening of the LED
/// service was answered. A service that cannot be opened goes before a mode that
/// is refused.
pub fn util_led<C>(opened: Result<C, String>, mode: &str) -> (r: Result<
    (C, LedCommand<String>),
    String,
>)
    ensures
        match opened {
            Err(e) => r is Err && (r->Err_0)@ == e@,
            Ok(service) => match led_command(mode@) {
                Ok(command) => r is Ok && (r->Ok_0).0 == service && (r->Ok_0).1@ == command,
                Err(e) => r is Err && (r->Err_0)@ == refusal(e),
            },
        },
{
    match opened {
        Err(e) => Err(e),
        Ok(service) => match led_mode(mode) {
            Ok(command) => Ok((service, command)),
            Err(e) => Err(e.message()),
        },
    }
}

/// What an auxiliary command does. `S` is how texts are held, `C` is an open LED
/// service.
#[derive(Debug)]
pub enum UtilCall<S, C> {
    /// Switch the LiDAR.
    Lidar { iface: S, on: bool },
    /// Call the LED service.
    Led { service: C, command: LedCommand<S> },
}

impl<C> View for UtilCall<String, C> {
    type V = UtilCall<Seq<char>, C>;

    open spec fn view(&self) -> UtilCall<Seq<char>, C> {
        match self {
            UtilCall::Lidar { iface, on } => UtilCall::Lidar { iface: iface@, on: *on },
            UtilCall::Led { service, command } => UtilCall::Led {
                service: *service,
                command: command@,
            },
        }
    }
}

/// The interface on which a request opens the LED service, if it comes to that: a
/// colour is looked at before, an LED mode only afterwards.
pub open spec fn opens(request: UtilRequest<Seq<char>>) -> Option<Seq<char>> {
    match request {
        UtilRequest::Lidar { .. } => None,
        UtilRequest::Led { iface, mode } => Some(iface),
        UtilRequest::LedColor { iface, color, secs, flash } => if led_color_command(
            color,
            secs,
            flash,
        ) is Ok {
            Some(iface)
        } else {
            None
        },
    }
}

/// What comes of a request when the opening of the LED service is answered by
/// `opened`; the message where it fails.
pub open spec fn answered<C>(
    request: UtilRequest<Seq<char>>,
    opened: Result<C, Seq<char>>,
) -> Result<UtilCall<Seq<char>, C>, Seq<char>> {
    match request {
        UtilRequest::Lidar { iface, on } => Ok(UtilCall::Lidar { iface, on }),
        UtilRequest::Led { iface, mode } => match opened {
            Err(e) => Err(e),
            Ok(service) => match led_command(mode) {
                Ok(command) => Ok(UtilCall::Led { service, command }),
                Err(e) => Err(refusal(e)),
            },
        },
        UtilRequest::LedColor { iface, color, secs, flash } => match led_color_command(
            color,
            secs,
            flash,
        ) {
            Err(e) => Err(refusal(e)),
            Ok(command) => match opened {
                Err(e) => Err(e),
                Ok(service) => Ok(UtilCall::Led { service, command }),
            },
        },
    }
}

/// A result with its texts.
pub open spec fn shown<C>(r: Result<UtilCall<String, C>, String>) -> Result<
    UtilCall<Seq<char>, C>,
    Seq<char>,
> {
    match r {
        Ok(call) => Ok(call@),
        Err(e) => Err(e@),
    }
}

/// An answer with its text.
pub open spec fn answer_text<C>(answer: Result<C, String>) -> Result<C, Seq<char>> {
    match answer {
        Ok(service) => Ok(service),
        Err(e) => Err(e@),
    }
}

/// `r` is what comes of a request, with the LED service opened by `open` where it
/// comes to that.
pub open spec fn comes_of<C, F: Fn(&str) -> Result<C, String>>(
    request: UtilRequest<Seq<char>>,
    r: Result<UtilCall<String, C>, String>,
    open: F,
) -> bool {
    match opens(request) {
        None => shown(r) == answered(request, Err::<C, _>(Seq::empty())),
        Some(iface) => exists|i: &str, answer: Result<C, String>| #[trigger]
            call_ensures(open, (i,), answer) && i@ == iface && shown(r) == answered(
                request,
                answer_text(answer),
            ),
    }
}

/// What a request does. `open` opens the LED service on an interface.
pub fn util_call<C, F: Fn(&str) -> Result<C, String>>(request: &UtilRequest<String>, open: F) -> (r:
    Result<UtilCall<String, C>, String>)
    requires
        forall|i: &str| call_requires(open, (i,)),
    ensures
        comes_of(request@, r, open),
{
    match request {
        UtilRequest::Lidar { iface, on } => Ok(UtilCall::Lidar { iface: iface.clone(), on: *on }),
        UtilRequest::Led { iface, mode } => {
            let opened: Result<C, String> = open(iface.as_str());
            let ghost answer = opened;
            let r: Result<UtilCall<String, C>, String> = match util_led(opened, mode.as_str()) {
                Ok((service, command)) => Ok(UtilCall::Led { service, command }),
                Err(e) => Err(e),
            };
            assert(shown(r) == answered(request@, answer_text(answer)));
            r
        },
        UtilRequest::LedColor { iface, color, secs, flash } => match util_led_color(
            color.as_str(),
            *secs,
            *flash,
        ) {
            Err(e) => Err(e.message()),
            Ok(command) => {
                let opened: Result<C, String> = open(iface.as_str());
                let ghost answer = opened;
                let r: Result<UtilCall<String, C>, String> = match opened {
                    Ok(service) => Ok(UtilCall::Led { service, command }),
                    Err(e) => Err(e),
                };
                assert(shown(r) == answered(request@, answer_text(answer)));
                r
            },
        },
    }
}

/// Reads off a command line what its auxiliary command does; a refusal comes as
/// its message. `open` opens the LED service on an interface.
pub fn run_util<C, F: Fn(&str) -> Result<C, String>>(cli: &Cli, open: F) -> (r: Result<
    UtilCall<String, C>,
    String,
>)
    requires
        forall|i: &str| call_requires(open, (i,)),
    ensures
        match util_asked(cli@) {
            Ok(request) => comes_of(request, r, open),
            Err(e) => r is Err && (r->Err_0)@ == refusal(e),
        },
{
    match plan_util(cli) {
        Ok(request) => util_call(&request, open),
        Err(e) => Err(e.message()),
    }
}

/// Without a service nothing is done to the LED: a refusal of the service is
/// passed on, and only a colour that the LED does not accept is refused before.
pub proof fn no_service_no_call<C>(request: UtilRequest<Seq<char>>, reason: Seq<char>)
    requires
        opens(request) is Some,
    ensures
        answered(request, Err::<C, _>(reason)) == Err::<UtilCall<Seq<char>, C>, _>(reason),
{
}

/// Every brightness from 0 to 10, written in decimal, is understood as such.
pub proof fn every_brightness_is_understood(level: int)
    requires
        0 <= level <= 10,
    ensures
        led_command(signed_decimal(level)) is Ok,
        led_command(signed_decimal(level))->Ok_0.request == brightness_request(level),
{
    signed_decimal_reads_back(level);
    decimal_reads_back(level as nat);
    reveal_strlit("on");
    reveal_strlit("off");
    assert(is_digit(decimal(level as nat)[0]));
}

/// A colour call never leaves what the LED accepts: one of its colours, at least
/// a second, and a blink cycle from 499 ms to the whole time.
pub proof fn color_calls_stay_within_limits(color: Seq<char>, secs: u32, flash: Option<u32>)
    ensures
        led_color_command(color, secs, flash) is Ok <==> is_led_color(color) && secs >= 1 && (
        flash matches Some(ms) ==> 499 <= ms <= secs * 1000),
{
}

/// The calls that switch the LED say `1` for on and `0` for off.
pub proof fn switch_calls_say_on_or_off(on: bool)
    ensures
        switch_request(on).api_id == 1001,
        on ==> switch_request(on).parameter == "{\"enable\":1}"@,
        !on ==> switch_request(on).parameter == "{\"enable\":0}"@,
{
    reveal_strlit("{\"enable\":");
    reveal_strlit("}");
    reveal_strlit("{\"enable\":1}");
    reveal_strlit("{\"enable\":0}");
    assert(decimal(1) =~= seq!['1']);
    assert(decimal(0) =~= seq!['0']);
    if on {
        assert(switch_request(on).parameter =~= "{\"enable\":1}"@);
    } else {
        assert(switch_request(on).parameter =~= "{\"enable\":0}"@);
    }
}

/// The call that sets a brightness has that very number between the key and the
/// closing brace, so that it can be read back out of the call.
pub proof fn brightness_calls_say_the_level(level: int)
    ensures
        ({
            let call = brightness_request(level);
            let n = call.parameter.len();
            &&& call.api_id == 1005
            &&& call.parameter.take(14) == "{\"brightness\":"@
            &&& read_signed(call.parameter.subrange(14, n - 1)) == Some(level)
            &&& call.parameter[n - 1] == '}'
        }),
{
    reveal_strlit("{\"brightness\":");
    reveal_strlit("}");
    let call = brightness_request(level);
    assert(call.parameter.take(14) =~= "{\"brightness\":"@);
    assert(call.parameter.subrange(14, call.parameter.len() - 1) =~= signed_decimal(level));
    signed_decimal_reads_back(level);
}

/// The call that sets a colour names the colour and has the seconds, and the blink
/// cycle only where one is given, each as a number that reads back.
pub proof fn color_calls_say_what_was_asked(color: Seq<char>, secs: nat, flash: Option<u32>) -> (
    digits: (Seq<char>, Seq<char>))
    ensures
        color_request(color, secs, flash).api_id == 1007,
        read_unsigned(digits.0) == Some(secs),
        flash matches Some(ms) ==> read_unsigned(digits.1) == Some(ms as nat),
        flash is None ==> color_request(color, secs, flash).parameter == "{\"color\":\""@ + color
            + "\",\"time\":"@ + digits.0 + "}"@,
        flash is Some ==> color_request(color, secs, flash).parameter == "{\"color\":\""@ + color
            + "\",\"time\":"@ + digits.0 + ",\"flash_cycle\":"@ + digits.1 + "}"@,
{
    decimal_reads_back(secs);
    let ms = match flash {
        Some(ms) => ms as nat,
        None => 0,
    };
    decimal_reads_back(ms);
    (decimal(secs), decimal(ms))
}

/// What an LED mode does: the words `on` and `off` switch the LED, a number from 0
/// to 10 is the brightness that is set, any other number is refused with that
/// number, and any other text with that text.
pub proof fn led_modes_do_what_they_say(mode: Seq<char>)
    ensures
        mode == "on"@ ==> (led_command(mode) matches Ok(c) && c.request == switch_request(true)),
        mode == "off"@ ==> (led_command(mode) matches Ok(c) && c.request == switch_request(false)),
        mode != "on"@ && mode != "off"@ ==> match read_i32(mode) {
            Some(level) => if level < 0 || level > 10 {
                led_command(mode) == Err::<LedCommand<Seq<char>>, _>(
                    UtilError::<Seq<char>>::LedBrightness(level),
                )
            } else {
                led_command(mode) matches Ok(c) && c.request == brightness_request(level as int)
            },
            None => led_command(mode) == Err::<LedCommand<Seq<char>>, _>(UtilError::LedMode(mode)),
        },
{
    reveal_strlit("on");
    reveal_strlit("off");
    assert("on"@.len() == 2 && "off"@.len() == 3);
}

/// What an LED colour does: a colour that the LED has, for at least a second and
/// with a blink cycle from 499 ms to the whole time, is set as asked; otherwise the
/// first of these that fails is what is refused.
pub proof fn led_colors_do_what_they_say(color: Seq<char>, secs: u32, flash: Option<u32>)
    ensures
        ({
            let known = color == "white"@ || color == "red"@ || color == "yellow"@ || color
                == "blue"@ || color == "green"@ || color == "cyan"@ || color == "purple"@;
            let done = led_color_command(color, secs, flash);
            &&& !known <==> done == Err::<LedCommand<Seq<char>>, _>(UtilError::LedColor(color))
            &&& known && secs == 0 <==> done == Err::<LedCommand<Seq<char>>, _>(
                UtilError::<Seq<char>>::LedDuration,
            )
            &&& known && secs >= 1 && flash is None ==> (done matches Ok(c) && c.request
                == color_request(color, secs as nat, None))
            &&& known && secs >= 1 ==> (flash matches Some(ms) ==> if ms < 499 || ms > 1000 * secs {
                done == Err::<LedCommand<Seq<char>>, _>(
                    UtilError::<Seq<char>>::LedFlash { secs, ms },
                )
            } else {
                done matches Ok(c) && c.request == color_request(color, secs as nat, Some(ms))
            })
        }),
{
}

/// How auxiliary commands are worded: the command is the second word, what it is to
/// do the third, the interface the fourth. Missing words are refused with the usage
/// of the command, and the LiDAR takes `on` and `off` only.
pub proof fn utilities_are_worded(cli: CliText)
    requires
        cli.positionals.len() >= 4,
        cli.positionals[3].len() > 0,
    ensures
        ({
            let word = cli.positionals[1];
            let what = cli.positionals[2];
            let iface = cli.positionals[3];
            let asked = util_asked(cli);
            &&& word == "lidar"@ && what == "on"@ ==> asked == Ok::<_, UtilError<Seq<char>>>(
                UtilRequest::Lidar { iface, on: true },
            )
            &&& word == "lidar"@ && what == "off"@ ==> asked == Ok::<_, UtilError<Seq<char>>>(
                UtilRequest::Lidar { iface, on: false },
            )
            &&& word == "lidar"@ && what != "on"@ && what != "off"@ ==> asked == Err::<
                UtilRequest<Seq<char>>,
                _,
            >(UtilError::LidarMode(what))
            &&& word == "led"@ && what.len() > 0 ==> asked == Ok::<_, UtilError<Seq<char>>>(
                UtilRequest::Led { iface, mode: what },
            )
            &&& word == "led"@ && what.len() == 0 ==> asked == Err::<UtilRequest<Seq<char>>, _>(
                UtilError::<Seq<char>>::LedUsage,
            )
            &&& (word == "led-color"@ || word == "led-colour"@) && what.len() > 0
                && cli.positionals.len() == 4 ==> asked == Ok::<_, UtilError<Seq<char>>>(
                UtilRequest::LedColor { iface, color: what, secs: 5, flash: None },
            )
            &&& (word == "led-color"@ || word == "led-colour"@) && what.len() == 0 ==> asked
                == Err::<UtilRequest<Seq<char>>, _>(UtilError::<Seq<char>>::LedColorUsage)
            &&& word.len() == 0 ==> asked == Err::<UtilRequest<Seq<char>>, _>(
                UtilError::<Seq<char>>::NoCommand,
            )
            &&& word.len() > 0 && word != "lidar"@ && word != "led"@ && word != "led-color"@ && word
                != "led-colour"@ ==> asked == Err::<UtilRequest<Seq<char>>, _>(
                UtilError::UnknownCommand(word),
            )
        }),
{
    lemma_util_words();
}

/// A command for the LED or the LiDAR without an interface is refused with its
/// usage, whatever it is to do; the LiDAR's mode is looked at first.
pub proof fn utilities_need_an_interface(cli: CliText)
    requires
        cli.positionals.len() == 3 || (cli.positionals.len() > 3 && cli.positionals[3].len() == 0),
    ensures
        ({
            let word = cli.positionals[1];
            let what = cli.positionals[2];
            let asked = util_asked(cli);
            &&& word == "lidar"@ && (what == "on"@ || what == "off"@) ==> asked == Err::<
                UtilRequest<Seq<char>>,
                _,
            >(UtilError::<Seq<char>>::LidarUsage)
            &&& word == "led"@ ==> asked == Err::<UtilRequest<Seq<char>>, _>(
                UtilError::<Seq<char>>::LedUsage,
            )
            &&& word == "led-color"@ || word == "led-colour"@ ==> asked == Err::<
                UtilRequest<Seq<char>>,
                _,
            >(UtilError::<Seq<char>>::LedColorUsage)
        }),
{
    lemma_util_words();
}

/// The seconds of a colour are the fifth word and its blink cycle the sixth; the
/// first of them that is no number is refused.
pub proof fn color_times_are_read(cli: CliText, secs: u32, ms: u32)
    requires
        cli.positionals.len() > 4,
        cli.positionals[1] == "led-color"@ || cli.positionals[1] == "led-colour"@,
        cli.positionals[2].len() > 0,
        cli.positionals[3].len() > 0,
    ensures
        ({
            let color = cli.positionals[2];
            let iface = cli.positionals[3];
            let asked = util_asked(cli);
            let five = cli.positionals.len() == 5;
            &&& read_u32(cli.positionals[4]) is None ==> asked == Err::<UtilRequest<Seq<char>>, _>(
                UtilError::Secs(cli.positionals[4]),
            )
            &&& read_u32(cli.positionals[4]) == Some(secs) && five ==> asked == Ok::<
                _,
                UtilError<Seq<char>>,
            >(UtilRequest::LedColor { iface, color, secs, flash: None })
            &&& read_u32(cli.positionals[4]) == Some(secs) && !five && read_u32(cli.positionals[5])
                == Some(ms) ==> asked == Ok::<_, UtilError<Seq<char>>>(
                UtilRequest::LedColor { iface, color, secs, flash: Some(ms) },
            )
            &&& read_u32(cli.positionals[4]) == Some(secs) && !five && read_u32(
                cli.positionals[5],
            ) is None ==> asked == Err::<UtilRequest<Seq<char>>, _>(
                UtilError::FlashMs(cli.positionals[5]),
            )
        }),
{
    lemma_util_words();
}

proof fn lemma_util_words()
    ensures
        "lidar"@.len() == 5,
        "led"@.len() == 3,
        "led-color"@.len() == 9,
        "led-colour"@.len() == 10,
        "on"@.len() == 2,
        "off"@.len() == 3,
{
    reveal_strlit("lidar");
    reveal_strlit("led");
    reveal_strlit("led-color");
    reveal_strlit("led-colour");
    reveal_strlit("on");
    reveal_strlit("off");
}

/// The LiDAR is switched as asked, without the LED service.
pub proof fn lidar_is_switched_as_asked<C, F: Fn(&str) -> Result<C, String>>(
    iface: Seq<char>,
    on: bool,
    r: Result<UtilCall<String, C>, String>,
    open: F,
)
    requires
        comes_of(UtilRequest::Lidar { iface, on }, r, open),
    ensures
        r matches Ok(UtilCall::Lidar { iface: i, on: o }) && i@ == iface && o == on,
{
}

/// An LED mode is looked at once the service is open on the interface of the
/// request: where the opening fails, its reason is what is told, whatever the mode
/// says; otherwise the mode's call goes to that service, or the mode is refused.
pub proof fn led_service_is_opened_first<C, F: Fn(&str) -> Result<C, String>>(
    iface: Seq<char>,
    mode: Seq<char>,
    r: Result<UtilCall<String, C>, String>,
    open: F,
) -> (answer: (&'static str, Result<C, String>))
    requires
        comes_of(UtilRequest::Led { iface, mode }, r, open),
    ensures
        call_ensures(open, (answer.0,), answer.1),
        answer.0@ == iface,
        answer.1 matches Err(reason) ==> (r matches Err(e) && e@ == reason@),
        answer.1 matches Ok(s) ==> match led_command(mode) {
            Ok(c) => r matches Ok(UtilCall::Led { service, command }) && service == s && command@
                == c,
            Err(e) => r matches Err(text) && text@ == e.message(quoted_form(e.given())),
        },
{
    let request = UtilRequest::Led { iface, mode };
    let (i, answer) = choose|i: &str, answer: Result<C, String>| #[trigger]
        call_ensures(open, (i,), answer) && i@ == iface && shown(r) == answered(
            request,
            answer_text(answer),
        );
    (i, answer)
}

/// A colour is looked at first: where it is refused, that is what is told, and
/// otherwise its call goes to the service that is opened on the interface of the
/// request, unless the opening fails.
pub proof fn led_color_is_looked_at_first<C, F: Fn(&str) -> Result<C, String>>(
    iface: Seq<char>,
    color: Seq<char>,
    secs: u32,
    flash: Option<u32>,
    r: Result<UtilCall<String, C>, String>,
    open: F,
) -> (answer: (&'static str, Result<C, String>))
    requires
        comes_of(UtilRequest::LedColor { iface, color, secs, flash }, r, open),
    ensures
        led_color_command(color, secs, flash) matches Err(e) ==> (r matches Err(text) && text@
            == e.message(quoted_form(e.given()))),
        led_color_command(color, secs, flash) matches Ok(c) ==> {
            &&& call_ensures(open, (answer.0,), answer.1)
            &&& answer.0@ == iface
            &&& answer.1 matches Err(reason) ==> (r matches Err(e) && e@ == reason@)
            &&& answer.1 matches Ok(s) ==> (r matches Ok(UtilCall::Led { service, command })
                && service == s && command@ == c)
        },
{
    let request = UtilRequest::LedColor { iface, color, secs, flash };
    let (i, answer) = choose|i: &str, answer: Result<C, String>| #[trigger]
        call_ensures(open, (i,), answer) && i@ == iface && shown(r) == answered(
            request,
            answer_text(answer),
        );
    (i, answer)
}

/// What is quoted in a refusal is the text that was given.
pub proof fn refusals_quote_what_was_given(s: Seq<char>)
    ensures
        UtilError::LidarMode(s).given() == s,
        UtilError::Secs(s).given() == s,
        UtilError::FlashMs(s).given() == s,
        UtilError::UnknownCommand(s).given() == s,
        UtilError::LedMode(s).given() == s,
        UtilError::LedColor(s).given() == s,
{
}

} // verus!
