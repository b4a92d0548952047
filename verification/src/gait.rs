//! Which gait to run, and how it is tuned.

use vstd::prelude::*;

use crate::cli::Cli;
use crate::cli::CliText;
use crate::numeral::is_number_text;
use crate::numeral::lemma_plain_number;
use crate::numeral::Numeral;
use crate::text::lower;
use crate::text::same_lowered;

verus! {

/// The controller that makes the gait.
#[derive(Clone, Copy, Debug, PartialEq, Eq, Structural)]
pub enum GaitMode {
    LinearCrawl,
    Champ,
    Mpc,
    CentroidalSrbd,
    FullCentroidal,
}

/// The footfall pattern.
#[derive(Clone, Copy, Debug, PartialEq, Eq, Structural)]
pub enum GaitType {
    Trot,
    Walk,
    Pace,
    Bound,
    Crawl,
}

/// The controller that a text names, in capitals or not.
pub open spec fn mode_named(s: Seq<char>) -> Option<GaitMode> {
    let t = lower(s);
    if t == "linear-crawl"@ || t == "linearcrawl"@ || t == "linear"@ {
        Some(GaitMode::LinearCrawl)
    } else if t == "champ"@ {
        Some(GaitMode::Champ)
    } else if t == "mpc"@ {
        Some(GaitMode::Mpc)
    } else if t == "centroidal-srbd"@ || t == "centroidal"@ || t == "srbd"@ {
        Some(GaitMode::CentroidalSrbd)
    } else if t == "full-centroidal"@ || t == "full"@ || t == "fullcentroidal"@ {
        Some(GaitMode::FullCentroidal)
    } else {
        None
    }
}

/// The footfall pattern that a text names, in capitals or not.
pub open spec fn type_named(s: Seq<char>) -> Option<GaitType> {
    let t = lower(s);
    if t == "trot"@ {
        Some(GaitType::Trot)
    } else if t == "walk"@ {
        Some(GaitType::Walk)
    } else if t == "pace"@ {
        Some(GaitType::Pace)
    } else if t == "bound"@ {
        Some(GaitType::Bound)
    } else if t == "crawl"@ {
        Some(GaitType::Crawl)
    } else {
        None
    }
}

/// The pattern of a controller when none is asked for: a crawl for the
/// statically stable controller, a trot for the others.
pub open spec fn usual_type(mode: GaitMode) -> GaitType {
    match mode {
        GaitMode::LinearCrawl => GaitType::Crawl,
        _ => GaitType::Trot,
    }
}

/// The name under which a controller is reported.
pub open spec fn mode_name(mode: GaitMode) -> Seq<char> {
    match mode {
        GaitMode::LinearCrawl => "LinearCrawl"@,
        GaitMode::Champ => "Champ"@,
        GaitMode::Mpc => "Mpc"@,
        GaitMode::CentroidalSrbd => "CentroidalSrbd"@,
        GaitMode::FullCentroidal => "FullCentroidal"@,
    }
}

/// Reads the name of a controller.
pub fn parse_gait_mode(s: &str) -> (r: Option<GaitMode>)
    ensures
        r == mode_named(s@),
{
    if same_lowered(s, "linear-crawl") || same_lowered(s, "linearcrawl") || same_lowered(
        s,
        "linear",
    ) {
        Some(GaitMode::LinearCrawl)
    } else if same_lowered(s, "champ") {
        Some(GaitMode::Champ)
    } else if same_lowered(s, "mpc") {
        Some(GaitMode::Mpc)
    } else if same_lowered(s, "centroidal-srbd") || same_lowered(s, "centroidal") || same_lowered(
        s,
        "srbd",
    ) {
        Some(GaitMode::CentroidalSrbd)
    } else if same_lowered(s, "full-centroidal") || same_lowered(s, "full") || same_lowered(
        s,
        "fullcentroidal",
    ) {
        Some(GaitMode::FullCentroidal)
    } else {
        None
    }
}

/// Reads the name of a footfall pattern.
pub fn parse_gait_type(s: &str) -> (r: Option<GaitType>)
    ensures
        r == type_named(s@),
{
    if same_lowered(s, "trot") {
        Some(GaitType::Trot)
    } else if same_lowered(s, "walk") {
        Some(GaitType::Walk)
    } else if same_lowered(s, "pace") {
        Some(GaitType::Pace)
    } else if same_lowered(s, "bound") {
        Some(GaitType::Bound)
    } else if same_lowered(s, "crawl") {
        Some(GaitType::Crawl)
    } else {
        None
    }
}

/// The pattern of a controller when none is asked for.
pub fn default_gait_type(mode: GaitMode) -> (r: GaitType)
    ensures
        r == usual_type(mode),
{
    match mode {
        GaitMode::LinearCrawl => GaitType::Crawl,
        _ => GaitType::Trot,
    }
}

/// The name under which a controller is reported.
pub fn gait_mode_name(mode: GaitMode) -> (r: &'static str)
    ensures
        r@ == mode_name(mode),
        mode == GaitMode::LinearCrawl ==> r@ == "LinearCrawl"@,
        mode == GaitMode::Champ ==> r@ == "Champ"@,
        mode == GaitMode::Mpc ==> r@ == "Mpc"@,
        mode == GaitMode::CentroidalSrbd ==> r@ == "CentroidalSrbd"@,
        mode == GaitMode::FullCentroidal ==> r@ == "FullCentroidal"@,
{
    match mode {
        GaitMode::LinearCrawl => "LinearCrawl",
        GaitMode::Champ => "Champ",
        GaitMode::Mpc => "Mpc",
        GaitMode::CentroidalSrbd => "CentroidalSrbd",
        GaitMode::FullCentroidal => "FullCentroidal",
    }
}

/// Whether the trunk is shown at the stance height that was asked for. Only the
/// crawl controller holds that height; the others stand as they were detected.
pub fn shows_stance_height(mode: GaitMode) -> (r: bool)
    ensures
        r == (mode == GaitMode::LinearCrawl),
{
    match mode {
        GaitMode::LinearCrawl => true,
        _ => false,
    }
}

/// How the gait is tuned. What is `None` stays as the pattern's preset has it.
/// `N` is how numbers are held.
#[derive(Debug)]
pub struct GaitTune<N> {
    /// Foot lift (m).
    pub swing_h: N,
    /// Gait cycle (s).
    pub cycle_s: Option<N>,
    /// The part of the cycle with all feet on the ground.
    pub four_support: Option<N>,
    /// Sideways sway of the body (m).
    pub sway: Option<N>,
    /// A swing that lifts off and touches down without acceleration.
    pub smooth_swing: bool,
    /// Widening of the stance (m).
    pub stance_width: Option<N>,
    /// Cap on the speed of a swinging foot (m/s).
    pub max_swing_foot_speed: Option<N>,
    /// Height of the trunk above the feet (m).
    pub stance_height: N,
    pub gait_mode: GaitMode,
    pub gait_type: GaitType,
}

/// The text of an optional numeral.
pub open spec fn number_view(n: Option<Numeral>) -> Option<Seq<char>> {
    match n {
        Some(n) => Some(n@),
        None => None,
    }
}

impl View for GaitTune<Numeral> {
    type V = GaitTune<Seq<char>>;

    open spec fn view(&self) -> GaitTune<Seq<char>> {
        GaitTune {
            swing_h: self.swing_h@,
            cycle_s: number_view(self.cycle_s),
            four_support: number_view(self.four_support),
            sway: number_view(self.sway),
            smooth_swing: self.smooth_swing,
            stance_width: number_view(self.stance_width),
            max_swing_foot_speed: number_view(self.max_swing_foot_speed),
            stance_height: self.stance_height@,
            gait_mode: self.gait_mode,
            gait_type: self.gait_type,
        }
    }
}

/// Why a command line names no gait. `S` is how texts are held.
#[derive(Debug)]
pub enum GaitError<S> {
    /// An unknown controller.
    Mode(S),
    /// An unknown footfall pattern.
    Type(S),
}

impl View for GaitError<String> {
    type V = GaitError<Seq<char>>;

    open spec fn view(&self) -> GaitError<Seq<char>> {
        match self {
            GaitError::Mode(s) => GaitError::Mode(s@),
            GaitError::Type(s) => GaitError::Type(s@),
        }
    }
}

/// The controller that a command line asks for.
pub open spec fn mode_asked(cli: CliText) -> Result<GaitMode, GaitError<Seq<char>>> {
    match cli.value("gait"@) {
        None => Ok(GaitMode::LinearCrawl),
        Some(s) => match mode_named(s) {
            Some(mode) => Ok(mode),
            None => Err(GaitError::Mode(s)),
        },
    }
}

/// The footfall pattern that a command line asks for.
pub open spec fn type_asked(
    cli: CliText,
    mode: GaitMode,
) -> Result<GaitType, GaitError<Seq<char>>> {
    match cli.value("gait-type"@) {
        None => Ok(usual_type(mode)),
        Some(s) => match type_named(s) {
            Some(gait) => Ok(gait),
            None => Err(GaitError::Type(s)),
        },
    }
}

/// The tuning that a command line asks for.
pub open spec fn tune_asked(cli: CliText) -> Result<GaitTune<Seq<char>>, GaitError<Seq<char>>> {
    match mode_asked(cli) {
        Err(e) => Err(e),
        Ok(mode) => match type_asked(cli, mode) {
            Err(e) => Err(e),
            Ok(gait) => Ok(
                GaitTune {
                    swing_h: cli.number_or("swing"@, "0.04"@),
                    cycle_s: cli.number("cycle"@),
                    four_support: cli.number("four-support"@),
                    sway: cli.number("sway"@),
                    smooth_swing: cli.is_on("smooth-swing"@),
                    stance_width: cli.number("stance-width"@),
                    max_swing_foot_speed: cli.number("max-swing-speed"@),
                    stance_height: cli.number_or("stance-height"@, "0.35"@),
                    gait_mode: mode,
                    gait_type: gait,
                },
            ),
        },
    }
}

/// A number flag with the number that holds when it is missing or unreadable.
pub fn number_flag(cli: &Cli, key: &str, default: &str) -> (r: Numeral)
    requires
        is_number_text(default@),
    ensures
        r@ == cli@.number_or(key@, default@),
{
    match cli.float64(key) {
        Some(n) => n,
        None => Numeral::known(default),
    }
}

/// Reads the gait tuning off a command line.
pub fn gait_tune(cli: &Cli) -> (r: Result<GaitTune<Numeral>, GaitError<String>>)
    ensures
        match r {
            Ok(tune) => tune_asked(cli@) == Ok::<_, GaitError<Seq<char>>>(tune@),
            Err(e) => tune_asked(cli@) == Err::<GaitTune<Seq<char>>, _>(e@),
        },
        // A pattern that is asked for is the pattern of the gait, whatever the
        // controller; without one the controller has its usual pattern.
        r matches Ok(tune) ==> {
            &&& cli@.value("gait-type"@) matches Some(s) ==> type_named(s) == Some(
                tune.gait_type,
            )
            &&& cli@.value("gait-type"@) is None ==> tune.gait_type == (if tune.gait_mode
                == GaitMode::LinearCrawl {
                GaitType::Crawl
            } else {
                GaitType::Trot
            })
            &&& cli@.value("gait"@) matches Some(s) ==> mode_named(s) == Some(tune.gait_mode)
            &&& cli@.value("gait"@) is None ==> tune.gait_mode == GaitMode::LinearCrawl
            &&& tune.swing_h@ == cli@.number_or("swing"@, "0.04"@)
            &&& tune.stance_height@ == cli@.number_or("stance-height"@, "0.35"@)
            &&& tune.smooth_swing == cli@.is_on("smooth-swing"@)
            &&& match tune.cycle_s {
                Some(n) => cli@.number("cycle"@) == Some(n@),
                None => cli@.number("cycle"@) is None,
            }
            &&& match tune.four_support {
                Some(n) => cli@.number("four-support"@) == Some(n@),
                None => cli@.number("four-support"@) is None,
            }
            &&& match tune.sway {
                Some(n) => cli@.number("sway"@) == Some(n@),
                None => cli@.number("sway"@) is None,
            }
            &&& match tune.stance_width {
                Some(n) => cli@.number("stance-width"@) == Some(n@),
                None => cli@.number("stance-width"@) is None,
            }
            &&& match tune.max_swing_foot_speed {
                Some(n) => cli@.number("max-swing-speed"@) == Some(n@),
                None => cli@.number("max-swing-speed"@) is None,
            }
        },
        r is Err ==> (cli@.value("gait"@) matches Some(s) && mode_named(s) is None) || (cli@.value(
            "gait-type"@,
        ) matches Some(s) && type_named(s) is None),
{
    let gait_mode: GaitMode = match cli.str("gait") {
        None => GaitMode::LinearCrawl,
        Some(s) => match parse_gait_mode(s) {
            Some(mode) => mode,
            None => {
                return Err(GaitError::Mode(s.to_owned()));
            },
        },
    };
    let gait_type: GaitType = match cli.str("gait-type") {
        None => default_gait_type(gait_mode),
        Some(s) => match parse_gait_type(s) {
            Some(gait) => gait,
            None => {
                return Err(GaitError::Type(s.to_owned()));
            },
        },
    };
    proof {
        reveal_strlit("0.04");
        reveal_strlit("0.35");
        lemma_plain_number("0.04"@, 1);
        lemma_plain_number("0.35"@, 1);
    }
    Ok(
        GaitTune {
            swing_h: number_flag(cli, "swing", "0.04"),
            cycle_s: cli.float64("cycle"),
            four_support: cli.float64("four-support"),
            sway: cli.float64("sway"),
            smooth_swing: cli.flag("smooth-swing"),
            stance_width: cli.float64("stance-width"),
            max_swing_foot_speed: cli.float64("max-swing-speed"),
            stance_height: number_flag(cli, "stance-height", "0.35"),
            gait_mode,
            gait_type,
        },
    )
}

/// A step of making a gait controller. `N` is how numbers are held.
#[derive(Debug)]
pub enum GaitStep<N> {
    /// Start from the preset of a footfall pattern.
    Preset(GaitType),
    SwingHeight(N),
    CyclePeriod(N),
    FourSupportFraction(N),
    LateralSway(N),
    SmoothSwing(bool),
    StanceWidth(N),
    MaxSwingFootSpeed(N),
    /// Make the controller from the configuration reached so far.
    Controller(GaitMode),
    /// Bend all knees backward.
    KneesBack,
    BodyHeight(N),
}

impl View for GaitStep<Numeral> {
    type V = GaitStep<Seq<char>>;

    open spec fn view(&self) -> GaitStep<Seq<char>> {
        match self {
            GaitStep::Preset(gait) => GaitStep::Preset(*gait),
            GaitStep::SwingHeight(n) => GaitStep::SwingHeight(n@),
            GaitStep::CyclePeriod(n) => GaitStep::CyclePeriod(n@),
            GaitStep::FourSupportFraction(n) => GaitStep::FourSupportFraction(n@),
            GaitStep::LateralSway(n) => GaitStep::LateralSway(n@),
            GaitStep::SmoothSwing(on) => GaitStep::SmoothSwing(*on),
            GaitStep::StanceWidth(n) => GaitStep::StanceWidth(n@),
            GaitStep::MaxSwingFootSpeed(n) => GaitStep::MaxSwingFootSpeed(n@),
            GaitStep::Controller(mode) => GaitStep::Controller(*mode),
            GaitStep::KneesBack => GaitStep::KneesBack,
            GaitStep::BodyHeight(n) => GaitStep::BodyHeight(n@),
        }
    }
}

/// The steps of a list, with their numbers as texts.
pub open spec fn step_views(steps: Seq<GaitStep<Numeral>>) -> Seq<GaitStep<Seq<char>>> {
    Seq::new(steps.len(), |i: int| steps[i]@)
}

/// The list with a step added, where there is a number for it.
pub open spec fn adding(
    steps: Seq<GaitStep<Seq<char>>>,
    n: Option<Seq<char>>,
    make: spec_fn(Seq<char>) -> GaitStep<Seq<char>>,
) -> Seq<GaitStep<Seq<char>>> {
    match n {
        Some(n) => steps.push(make(n)),
        None => steps,
    }
}

/// The steps that shape the configuration of a tuned gait, in order.
pub open spec fn tuning_steps(tune: GaitTune<Seq<char>>) -> Seq<GaitStep<Seq<char>>> {
    let s = seq![GaitStep::Preset(tune.gait_type), GaitStep::SwingHeight(tune.swing_h)];
    let s = adding(s, tune.cycle_s, |n: Seq<char>| GaitStep::CyclePeriod(n));
    let s = adding(s, tune.four_support, |n: Seq<char>| GaitStep::FourSupportFraction(n));
    let s = adding(s, tune.sway, |n: Seq<char>| GaitStep::LateralSway(n));
    let s = s.push(GaitStep::SmoothSwing(tune.smooth_swing));
    let s = adding(s, tune.stance_width, |n: Seq<char>| GaitStep::StanceWidth(n));
    adding(s, tune.max_swing_foot_speed, |n: Seq<char>| GaitStep::MaxSwingFootSpeed(n))
}

/// The steps that turn a configuration into a controller that stands as asked.
pub open spec fn controller_steps(tune: GaitTune<Seq<char>>) -> Seq<GaitStep<Seq<char>>> {
    seq![
        GaitStep::Controller(tune.gait_mode),
        GaitStep::KneesBack,
        GaitStep::BodyHeight(tune.stance_height),
    ]
}

/// The steps that make the controller of a tuned gait.
pub fn build_gait(tune: &GaitTune<Numeral>) -> (r: Vec<GaitStep<Numeral>>)
    ensures
        step_views(r@) == tuning_steps(tune@) + controller_steps(tune@),
        r@.len() >= 6,
        r@[0] == GaitStep::<Numeral>::Preset(tune.gait_type),
        r@[1] matches GaitStep::SwingHeight(n) && n@ == tune.swing_h@,
        r@[r@.len() - 3] == GaitStep::<Numeral>::Controller(tune.gait_mode),
        r@[r@.len() - 2] == GaitStep::<Numeral>::KneesBack,
        r@[r@.len() - 1] matches GaitStep::BodyHeight(n) && n@ == tune.stance_height@,
        tune.cycle_s matches Some(v) ==> exists|i: int|
            0 <= i < r@.len() && (#[trigger] r@[i] matches GaitStep::CyclePeriod(n) && n@ == v@),
        tune.four_support matches Some(v) ==> exists|i: int|
            0 <= i < r@.len() && (#[trigger] r@[i] matches GaitStep::FourSupportFraction(n) && n@
                == v@),
        tune.sway matches Some(v) ==> exists|i: int|
            0 <= i < r@.len() && (#[trigger] r@[i] matches GaitStep::LateralSway(n) && n@ == v@),
        exists|i: int|
            0 <= i < r@.len() && #[trigger] r@[i] == GaitStep::<Numeral>::SmoothSwing(
                tune.smooth_swing,
            ),
        tune.stance_width matches Some(v) ==> exists|i: int|
            0 <= i < r@.len() && (#[trigger] r@[i] matches GaitStep::StanceWidth(n) && n@ == v@),
        tune.max_swing_foot_speed matches Some(v) ==> exists|i: int|
            0 <= i < r@.len() && (#[trigger] r@[i] matches GaitStep::MaxSwingFootSpeed(n) && n@
                == v@),
{
    let mut steps: Vec<GaitStep<Numeral>> = Vec::new();
    steps.push(GaitStep::Preset(tune.gait_type));
    steps.push(GaitStep::SwingHeight(tune.swing_h.clone()));
    if let Some(n) = &tune.cycle_s {
        steps.push(GaitStep::CyclePeriod(n.clone()));
    }
    if let Some(n) = &tune.four_support {
        steps.push(GaitStep::FourSupportFraction(n.clone()));
    }
    if let Some(n) = &tune.sway {
        steps.push(GaitStep::LateralSway(n.clone()));
    }
    steps.push(GaitStep::SmoothSwing(tune.smooth_swing));
    if let Some(n) = &tune.stance_width {
        steps.push(GaitStep::StanceWidth(n.clone()));
    }
    if let Some(n) = &tune.max_swing_foot_speed {
        steps.push(GaitStep::MaxSwingFootSpeed(n.clone()));
    }
    assert(step_views(steps@) =~= tuning_steps(tune@));
    push_controller(&mut steps, tune);
    proof {
        lemma_steps_are_there(steps@, tune);
    }
    steps
}

proof fn lemma_step_is_there(
    steps: Seq<GaitStep<Numeral>>,
    first: Seq<GaitStep<Seq<char>>>,
    later: Seq<GaitStep<Seq<char>>>,
    step: GaitStep<Seq<char>>,
) -> (i: int)
    requires
        step_views(steps) == first + later,
        first.contains(step),
    ensures
        0 <= i < steps.len(),
        steps[i]@ == step,
{
    let i = choose|i: int| 0 <= i < first.len() && first[i] == step;
    assert(step_views(steps).len() == steps.len());
    assert((first + later)[i] == first[i]);
    assert(step_views(steps)[i] == steps[i]@);
    i
}

proof fn lemma_steps_are_there(steps: Seq<GaitStep<Numeral>>, tune: &GaitTune<Numeral>)
    requires
        step_views(steps) == tuning_steps(tune@) + controller_steps(tune@),
    ensures
        steps.len() >= 6,
        steps[0] == GaitStep::<Numeral>::Preset(tune.gait_type),
        steps[1] matches GaitStep::SwingHeight(n) && n@ == tune.swing_h@,
        steps[steps.len() - 3] == GaitStep::<Numeral>::Controller(tune.gait_mode),
        steps[steps.len() - 2] == GaitStep::<Numeral>::KneesBack,
        steps[steps.len() - 1] matches GaitStep::BodyHeight(n) && n@ == tune.stance_height@,
        tune.cycle_s matches Some(v) ==> exists|i: int|
            0 <= i < steps.len() && (#[trigger] steps[i] matches GaitStep::CyclePeriod(n) && n@
                == v@),
        tune.four_support matches Some(v) ==> exists|i: int|
            0 <= i < steps.len() && (#[trigger] steps[i] matches GaitStep::FourSupportFraction(n)
                && n@ == v@),
        tune.sway matches Some(v) ==> exists|i: int|
            0 <= i < steps.len() && (#[trigger] steps[i] matches GaitStep::LateralSway(n) && n@
                == v@),
        exists|i: int|
            0 <= i < steps.len() && #[trigger] steps[i] == GaitStep::<Numeral>::SmoothSwing(
                tune.smooth_swing,
            ),
        tune.stance_width matches Some(v) ==> exists|i: int|
            0 <= i < steps.len() && (#[trigger] steps[i] matches GaitStep::StanceWidth(n) && n@
                == v@),
        tune.max_swing_foot_speed matches Some(v) ==> exists|i: int|
            0 <= i < steps.len() && (#[trigger] steps[i] matches GaitStep::MaxSwingFootSpeed(n)
                && n@ == v@),
{
    let first = tuning_steps(tune@);
    let later = controller_steps(tune@);
    let views = step_views(steps);
    assert(views.len() == steps.len());
    gait_is_made_in_order(tune@);
    assert(views[0] == steps[0]@ && views[1] == steps[1]@);
    assert(views[views.len() - 3] == steps[steps.len() - 3]@);
    assert(views[views.len() - 2] == steps[steps.len() - 2]@);
    assert(views[views.len() - 1] == steps[steps.len() - 1]@);
    if let Some(v) = tune.cycle_s {
        let i = lemma_step_is_there(steps, first, later, GaitStep::CyclePeriod(v@));
        assert(steps[i] matches GaitStep::CyclePeriod(n) && n@ == v@);
    }
    if let Some(v) = tune.four_support {
        let i = lemma_step_is_there(steps, first, later, GaitStep::FourSupportFraction(v@));
        assert(steps[i] matches GaitStep::FourSupportFraction(n) && n@ == v@);
    }
    if let Some(v) = tune.sway {
        let i = lemma_step_is_there(steps, first, later, GaitStep::LateralSway(v@));
        assert(steps[i] matches GaitStep::LateralSway(n) && n@ == v@);
    }
    let i = lemma_step_is_there(steps, first, later, GaitStep::SmoothSwing(tune.smooth_swing));
    assert(steps[i] == GaitStep::<Numeral>::SmoothSwing(tune.smooth_swing));
    if let Some(v) = tune.stance_width {
        let i = lemma_step_is_there(steps, first, later, GaitStep::StanceWidth(v@));
        assert(steps[i] matches GaitStep::StanceWidth(n) && n@ == v@);
    }
    if let Some(v) = tune.max_swing_foot_speed {
        let i = lemma_step_is_there(steps, first, later, GaitStep::MaxSwingFootSpeed(v@));
        assert(steps[i] matches GaitStep::MaxSwingFootSpeed(n) && n@ == v@);
    }
}

/// The steps that make the controller whose joint angles are checked offline:
/// the pattern's preset as it is, at the stance height asked for.
pub fn build_dump_gait(tune: &GaitTune<Numeral>) -> (r: Vec<GaitStep<Numeral>>)
    ensures
        step_views(r@) == seq![GaitStep::Preset(tune.gait_type)] + controller_steps(tune@),
        r@.len() == 4,
        r@[0] == GaitStep::<Numeral>::Preset(tune.gait_type),
        r@[1] == GaitStep::<Numeral>::Controller(tune.gait_mode),
        r@[2] == GaitStep::<Numeral>::KneesBack,
        r@[3] matches GaitStep::BodyHeight(n) && n@ == tune.stance_height@,
{
    let mut steps: Vec<GaitStep<Numeral>> = Vec::new();
    steps.push(GaitStep::Preset(tune.gait_type));
    assert(step_views(steps@) =~= seq![GaitStep::Preset(tune.gait_type)]);
    push_controller(&mut steps, tune);
    proof {
        let views = step_views(steps@);
        assert(views.len() == steps@.len());
        assert(views.len() == 4);
        assert(views[0] == steps@[0]@ && views[1] == steps@[1]@);
        assert(views[2] == steps@[2]@ && views[3] == steps@[3]@);
    }
    steps
}

fn push_controller(steps: &mut Vec<GaitStep<Numeral>>, tune: &GaitTune<Numeral>)
    ensures
        step_views(final(steps)@) == step_views(old(steps)@) + controller_steps(tune@),
{
    steps.push(GaitStep::Controller(tune.gait_mode));
    steps.push(GaitStep::KneesBack);
    steps.push(GaitStep::BodyHeight(tune.stance_height.clone()));
    assert(step_views(steps@) =~= step_views(old(steps)@) + controller_steps(tune@));
}

/// Capitals make no difference in the names of controllers and patterns.
pub proof fn capitals_make_no_difference(s: Seq<char>)
    ensures
        mode_named(lower(s)) == mode_named(s),
        type_named(lower(s)) == type_named(s),
{
    assert(lower(lower(s)) =~= lower(s));
}

/// The names of the footfall patterns: each pattern is read from its own name, in
/// capitals or not, and from no other text.
pub proof fn patterns_have_their_names(s: Seq<char>)
    ensures
        type_named(s) == Some(GaitType::Trot) <==> lower(s) == "trot"@,
        type_named(s) == Some(GaitType::Walk) <==> lower(s) == "walk"@,
        type_named(s) == Some(GaitType::Pace) <==> lower(s) == "pace"@,
        type_named(s) == Some(GaitType::Bound) <==> lower(s) == "bound"@,
        type_named(s) == Some(GaitType::Crawl) <==> lower(s) == "crawl"@,
{
    reveal_strlit("trot");
    reveal_strlit("walk");
    reveal_strlit("pace");
    reveal_strlit("bound");
    reveal_strlit("crawl");
    assert("trot"@[0] == 't' && "walk"@[0] == 'w' && "pace"@[0] == 'p');
    assert("bound"@[0] == 'b' && "crawl"@[0] == 'c');
}

/// The names of the controllers: each is read from its own names, in capitals or
/// not, and from no other text.
pub proof fn controllers_have_their_names(s: Seq<char>)
    ensures
        mode_named(s) == Some(GaitMode::LinearCrawl) <==> (lower(s) == "linear-crawl"@ || lower(s)
            == "linearcrawl"@ || lower(s) == "linear"@),
        mode_named(s) == Some(GaitMode::Champ) <==> lower(s) == "champ"@,
        mode_named(s) == Some(GaitMode::Mpc) <==> lower(s) == "mpc"@,
        mode_named(s) == Some(GaitMode::CentroidalSrbd) <==> (lower(s) == "centroidal-srbd"@
            || lower(s) == "centroidal"@ || lower(s) == "srbd"@),
        mode_named(s) == Some(GaitMode::FullCentroidal) <==> (lower(s) == "full-centroidal"@
            || lower(s) == "fullcentroidal"@ || lower(s) == "full"@),
{
    reveal_strlit("linear-crawl");
    reveal_strlit("linearcrawl");
    reveal_strlit("linear");
    reveal_strlit("champ");
    reveal_strlit("mpc");
    reveal_strlit("centroidal-srbd");
    reveal_strlit("centroidal");
    reveal_strlit("srbd");
    reveal_strlit("full-centroidal");
    reveal_strlit("fullcentroidal");
    reveal_strlit("full");
    assert("linear-crawl"@[0] == 'l' && "linearcrawl"@[0] == 'l' && "linear"@[0] == 'l');
    assert("champ"@[0] == 'c' && "mpc"@[0] == 'm' && "srbd"@[0] == 's');
    assert("champ"@[1] == 'h' && "centroidal"@[1] == 'e' && "centroidal-srbd"@[1] == 'e');
    assert("centroidal-srbd"@[0] == 'c' && "centroidal"@[0] == 'c');
    assert("full-centroidal"@[0] == 'f' && "fullcentroidal"@[0] == 'f' && "full"@[0] == 'f');
}

/// A pattern that is asked for is used, whatever the controller: where the
/// controller is known or left out, `--gait-type trot` gives a trot, and so on for
/// each pattern, in capitals or not. Without the flag the crawl controller crawls
/// and the others trot.
pub proof fn pattern_asked_for_is_used(cli: CliText)
    requires
        cli.flags.contains_key("gait"@) ==> mode_named(cli.flags["gait"@]) is Some,
    ensures
        cli.flags.contains_key("gait-type"@) ==> {
            let s = lower(cli.flags["gait-type"@]);
            &&& s == "trot"@ ==> (tune_asked(cli) matches Ok(tune) && tune.gait_type
                == GaitType::Trot)
            &&& s == "walk"@ ==> (tune_asked(cli) matches Ok(tune) && tune.gait_type
                == GaitType::Walk)
            &&& s == "pace"@ ==> (tune_asked(cli) matches Ok(tune) && tune.gait_type
                == GaitType::Pace)
            &&& s == "bound"@ ==> (tune_asked(cli) matches Ok(tune) && tune.gait_type
                == GaitType::Bound)
            &&& s == "crawl"@ ==> (tune_asked(cli) matches Ok(tune) && tune.gait_type
                == GaitType::Crawl)
        },
        !cli.flags.contains_key("gait-type"@) ==> (tune_asked(cli) matches Ok(tune)
            && tune.gait_type == (if tune.gait_mode == GaitMode::LinearCrawl {
            GaitType::Crawl
        } else {
            GaitType::Trot
        })),
{
    patterns_have_their_names(cli.flags["gait-type"@]);
}

/// The pattern does not depend on the controller where it is asked for: two command
/// lines that ask for the same known pattern get the same one.
pub proof fn asked_pattern_is_independent_of_the_controller(a: CliText, b: CliText)
    requires
        a.flags.contains_key("gait-type"@),
        b.flags.contains_key("gait-type"@),
        lower(a.flags["gait-type"@]) == lower(b.flags["gait-type"@]),
        tune_asked(a) is Ok,
        tune_asked(b) is Ok,
    ensures
        tune_asked(a)->Ok_0.gait_type == tune_asked(b)->Ok_0.gait_type,
{
}

/// A controller that is asked for is used, and the crawl controller where none is;
/// a name that is not known is refused with that name, the controller's first.
pub proof fn controller_asked_for_is_used(cli: CliText)
    ensures
        tune_asked(cli) matches Ok(tune) ==> {
            &&& !cli.flags.contains_key("gait"@) ==> tune.gait_mode == GaitMode::LinearCrawl
            &&& cli.flags.contains_key("gait"@) ==> mode_named(cli.flags["gait"@]) == Some(
                tune.gait_mode,
            )
        },
        cli.flags.contains_key("gait"@) && mode_named(cli.flags["gait"@]) is None <==> tune_asked(
            cli,
        ) matches Err(GaitError::Mode(_)),
        tune_asked(cli) matches Err(GaitError::Mode(s)) ==> s == cli.flags["gait"@],
        tune_asked(cli) matches Err(GaitError::Type(s)) ==> s == cli.flags["gait-type"@]
            && type_named(s) is None && cli.flags.contains_key("gait-type"@),
{
}

/// Each tuning value comes from its own flag where that denotes a number; without
/// one the swing height is 0.04, the stance height 0.35, and the pattern's preset
/// stays as it is.
pub proof fn tuning_comes_from_its_flags(cli: CliText, key: Seq<char>, n: Seq<char>)
    requires
        tune_asked(cli) is Ok,
        cli.flags.contains_key(key),
        cli.flags[key] == n,
        is_number_text(n),
    ensures
        ({
            let tune = tune_asked(cli)->Ok_0;
            &&& key == "swing"@ ==> tune.swing_h == n
            &&& key == "cycle"@ ==> tune.cycle_s == Some(n)
            &&& key == "four-support"@ ==> tune.four_support == Some(n)
            &&& key == "sway"@ ==> tune.sway == Some(n)
            &&& key == "stance-width"@ ==> tune.stance_width == Some(n)
            &&& key == "max-swing-speed"@ ==> tune.max_swing_foot_speed == Some(n)
            &&& key == "stance-height"@ ==> tune.stance_height == n
        }),
{
}

/// What is not asked for, or not readable, is left as it is.
pub proof fn untuned_values_are_left_alone(cli: CliText, key: Seq<char>)
    requires
        tune_asked(cli) is Ok,
        cli.flags.contains_key(key) ==> !is_number_text(cli.flags[key]),
    ensures
        ({
            let tune = tune_asked(cli)->Ok_0;
            &&& key == "swing"@ ==> tune.swing_h == "0.04"@
            &&& key == "cycle"@ ==> tune.cycle_s is None
            &&& key == "four-support"@ ==> tune.four_support is None
            &&& key == "sway"@ ==> tune.sway is None
            &&& key == "stance-width"@ ==> tune.stance_width is None
            &&& key == "max-swing-speed"@ ==> tune.max_swing_foot_speed is None
            &&& key == "stance-height"@ ==> tune.stance_height == "0.35"@
        }),
{
}

/// The swing is smooth exactly when its flag is switched on.
pub proof fn smooth_swing_is_switched_on(cli: CliText)
    requires
        tune_asked(cli) is Ok,
    ensures
        tune_asked(cli)->Ok_0.smooth_swing <==> cli.flags.contains_key("smooth-swing"@) && (
        cli.flags["smooth-swing"@] == "1"@ || cli.flags["smooth-swing"@] == "on"@
            || cli.flags["smooth-swing"@] == "true"@ || cli.flags["smooth-swing"@] == "yes"@
            || cli.flags["smooth-swing"@] == "ff"@ || cli.flags["smooth-swing"@] == "y"@),
{
}

/// Making a gait: the preset of its pattern comes first, every value of the tuning
/// is set before the controller is made, a value that is not there is not set, and
/// the knees and the height come last.
pub proof fn gait_is_made_in_order(tune: GaitTune<Seq<char>>)
    ensures
        ({
            let steps = tuning_steps(tune) + controller_steps(tune);
            let n = steps.len();
            let set = (if tune.cycle_s is Some { 1int } else { 0 }) + (if tune.four_support is Some {
                1int
            } else {
                0
            }) + (if tune.sway is Some { 1int } else { 0 }) + (if tune.stance_width is Some {
                1int
            } else {
                0
            }) + (if tune.max_swing_foot_speed is Some { 1int } else { 0 });
            &&& n == set + 6
            &&& steps[0] == GaitStep::<Seq<char>>::Preset(tune.gait_type)
            &&& steps[1] == GaitStep::SwingHeight(tune.swing_h)
            &&& steps[n - 3] == GaitStep::<Seq<char>>::Controller(tune.gait_mode)
            &&& steps[n - 2] == GaitStep::<Seq<char>>::KneesBack
            &&& steps[n - 1] == GaitStep::BodyHeight(tune.stance_height)
            &&& tune.cycle_s matches Some(v) ==> tuning_steps(tune).contains(
                GaitStep::CyclePeriod(v),
            )
            &&& tune.four_support matches Some(v) ==> tuning_steps(tune).contains(
                GaitStep::FourSupportFraction(v),
            )
            &&& tune.sway matches Some(v) ==> tuning_steps(tune).contains(
                GaitStep::LateralSway(v),
            )
            &&& tuning_steps(tune).contains(GaitStep::SmoothSwing(tune.smooth_swing))
            &&& tune.stance_width matches Some(v) ==> tuning_steps(tune).contains(
                GaitStep::StanceWidth(v),
            )
            &&& tune.max_swing_foot_speed matches Some(v) ==> tuning_steps(tune).contains(
                GaitStep::MaxSwingFootSpeed(v),
            )
            &&& controller_steps(tune).len() == 3
        }),
{
    let s0 = seq![
        GaitStep::<Seq<char>>::Preset(tune.gait_type),
        GaitStep::SwingHeight(tune.swing_h),
    ];
    let s1 = adding(s0, tune.cycle_s, |n: Seq<char>| GaitStep::CyclePeriod(n));
    let s2 = adding(s1, tune.four_support, |n: Seq<char>| GaitStep::FourSupportFraction(n));
    let s3 = adding(s2, tune.sway, |n: Seq<char>| GaitStep::LateralSway(n));
    let s4 = s3.push(GaitStep::SmoothSwing(tune.smooth_swing));
    let s5 = adding(s4, tune.stance_width, |n: Seq<char>| GaitStep::StanceWidth(n));
    let s6 = adding(s5, tune.max_swing_foot_speed, |n: Seq<char>| GaitStep::MaxSwingFootSpeed(n));
    assert(tuning_steps(tune) == s6);
    if let Some(v) = tune.cycle_s {
        assert(s6[s0.len() as int] == GaitStep::CyclePeriod(v));
    }
    if let Some(v) = tune.four_support {
        assert(s6[s1.len() as int] == GaitStep::FourSupportFraction(v));
    }
    if let Some(v) = tune.sway {
        assert(s6[s2.len() as int] == GaitStep::LateralSway(v));
    }
    assert(s6[s3.len() as int] == GaitStep::<Seq<char>>::SmoothSwing(tune.smooth_swing));
    if let Some(v) = tune.stance_width {
        assert(s6[s4.len() as int] == GaitStep::StanceWidth(v));
    }
    if let Some(v) = tune.max_swing_foot_speed {
        assert(s6[s5.len() as int] == GaitStep::MaxSwingFootSpeed(v));
    }
}

} // verus!
