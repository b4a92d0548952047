//! The live stream of the gait: what is published, when, and on which session.

use vstd::prelude::*;

use crate::cli::Cli;
use crate::cli::CliText;
use crate::gait::number_flag;
use crate::joints::last_with_motor;
use crate::joints::lemma_last_in_range;
use crate::joints::motor_gets;
use crate::joints::motor_named;
use crate::joints::target_names;
use crate::legs::base_motor_of;
use crate::legs::leg_at;
use crate::numeral::lemma_plain_number;
use crate::numeral::Numeral;
use crate::text::glue;
use crate::text::glue3;

verus! {

/// Settings of the live stream. `S` is how texts are held, `N` how numbers are.
#[derive(Debug)]
pub struct VizCfg<S, N> {
    pub enabled: bool,
    /// The key to publish on.
    pub key: S,
    /// Frames per second.
    pub rate_hz: N,
    /// Where to listen, for hosts on which discovery does not work.
    pub endpoint: Option<S>,
}

impl View for VizCfg<String, Numeral> {
    type V = VizCfg<Seq<char>, Seq<char>>;

    open spec fn view(&self) -> VizCfg<Seq<char>, Seq<char>> {
        VizCfg {
            enabled: self.enabled,
            key: self.key@,
            rate_hz: self.rate_hz@,
            endpoint: match self.endpoint {
                Some(e) => Some(e@),
                None => None,
            },
        }
    }
}

/// The stream that a command line asks for. `planned` is the usual key.
pub open spec fn viz_asked(cli: CliText, planned: Seq<char>) -> VizCfg<Seq<char>, Seq<char>> {
    VizCfg {
        enabled: cli.is_on("viz"@),
        key: match cli.value("viz-key"@) {
            Some(key) => key,
            None => planned,
        },
        rate_hz: cli.number_or("viz-rate"@, "100.0"@),
        endpoint: cli.value("viz-endpoint"@),
    }
}

/// Reads the stream settings off a command line.
pub fn viz_cfg(cli: &Cli, planned: &str) -> (r: VizCfg<String, Numeral>)
    ensures
        r@ == viz_asked(cli@, planned@),
        r.enabled == cli@.is_on("viz"@),
        cli@.value("viz-key"@) is None ==> r.key@ == planned@,
        cli@.value("viz-key"@) matches Some(key) ==> r.key@ == key,
        r.rate_hz@ == cli@.number_or("viz-rate"@, "100.0"@),
        match r.endpoint {
            Some(e) => cli@.value("viz-endpoint"@) == Some(e@),
            None => cli@.value("viz-endpoint"@) is None,
        },
{
    proof {
        reveal_strlit("100.0");
        lemma_plain_number("100.0"@, 3);
    }
    VizCfg {
        enabled: cli.flag("viz"),
        key: match cli.str("viz-key") {
            Some(key) => key.to_owned(),
            None => planned.to_owned(),
        },
        rate_hz: number_flag(cli, "viz-rate", "100.0"),
        endpoint: match cli.str("viz-endpoint") {
            Some(endpoint) => Some(endpoint.to_owned()),
            None => None,
        },
    }
}

/// What the announcement of the stream says about where it listens.
pub open spec fn listening_note(endpoint: Option<Seq<char>>) -> Seq<char> {
    match endpoint {
        Some(e) => ", listening on "@ + e,
        None => Seq::empty(),
    }
}

/// What the announcement of the stream says about where it listens.
pub fn listening_suffix(endpoint: Option<&str>) -> (r: String)
    ensures
        r@ == listening_note(
            match endpoint {
                Some(e) => Some(e@),
                None => None,
            },
        ),
{
    match endpoint {
        Some(e) => glue(", listening on ", e),
        None => String::new(),
    }
}

/// The configuration of a publishing session.
#[verifier::external_type_specification]
#[verifier::external_body]
pub struct ExConfig(zenoh::Config);

/// The JSON text that a configuration holds at each of its single settings.
pub uninterp spec fn config_settings(config: zenoh::Config) -> Map<Seq<char>, Seq<char>>;

/// The JSON that is held for a setting once a JSON5 text was offered for it, if
/// the text is accepted.
pub uninterp spec fn setting_from(key: Seq<char>, value: Seq<char>) -> Option<Seq<char>>;

/// The setting that holds where a session listens.
pub open spec fn listen_key() -> Seq<char> {
    "listen/endpoints"@
}

/// The setting that switches discovery by multicast.
pub open spec fn multicast_key() -> Seq<char> {
    "scouting/multicast/enabled"@
}

/// Calls `zenoh::Config::insert_json5`. For the two settings named here, claims
/// that the key and the text alone decide whether the text is accepted; that an
/// accepted text changes this one setting; that a refused one changes nothing;
/// and that `false` is accepted, as itself, for discovery. Which texts are
/// accepted otherwise is not stated, nor what the message of a refusal says: it
/// ends in a path that depends on where the program was built.
#[verifier::external_body]
pub(crate) fn insert_json5(config: &mut zenoh::Config, key: &str, value: &str) -> (r: Result<
    (),
    String,
>)
    requires
        key@ == listen_key() || key@ == multicast_key(),
    ensures
        match setting_from(key@, value@) {
            Some(json) => r is Ok && config_settings(*final(config)) == config_settings(
                *old(config),
            ).insert(key@, json),
            None => r is Err && *final(config) == *old(config),
        },
        key@ == multicast_key() && value@ == "false"@ ==> r is Ok && config_settings(
            *final(config),
        ) == config_settings(*old(config)).insert(key@, "false"@),
{
    config.insert_json5(key, value).map_err(|e| e.to_string())
}

/// The text offered for where to listen: a list with the one endpoint.
pub open spec fn endpoint_list(endpoint: Seq<char>) -> Seq<char> {
    "[\""@ + endpoint + "\"]"@
}

/// What is reported when an endpoint is refused.
pub open spec fn refused_endpoint(endpoint: Seq<char>, reason: Seq<char>) -> Seq<char> {
    "zenoh listen endpoint '"@ + endpoint + "': "@ + reason
}

/// The text offered for where to listen.
pub fn listen_endpoints(endpoint: &str) -> (r: String)
    ensures
        r@ == endpoint_list(endpoint@),
{
    glue3("[\"", endpoint, "\"]")
}

/// What is reported when an endpoint is refused.
pub fn endpoint_refusal(endpoint: &str, reason: &str) -> (r: String)
    ensures
        r@ == refused_endpoint(endpoint@, reason@),
{
    let mut out: String = glue3("zenoh listen endpoint '", endpoint, "': ");
    out.append(reason);
    out
}

/// Sets a session up for an endpoint: it listens there and does without
/// discovery by multicast. Without an endpoint the configuration stays as it is.
/// A refused endpoint is answered by a message with the reason in it.
pub fn configure(config: &mut zenoh::Config, endpoint: Option<&str>) -> (r: Result<(), String>)
    ensures
        match endpoint {
            None => r is Ok && *final(config) == *old(config),
            Some(e) => match setting_from(listen_key(), endpoint_list(e@)) {
                None => r is Err && *final(config) == *old(config) && exists|reason: Seq<char>|
                    (r->Err_0)@ == #[trigger] refused_endpoint(e@, reason),
                Some(json) => r is Ok && config_settings(*final(config)) == config_settings(
                    *old(config),
                ).insert(listen_key(), json).insert(multicast_key(), "false"@),
            },
        },
{
    match endpoint {
        None => Ok(()),
        Some(e) => {
            let list: String = listen_endpoints(e);
            match insert_json5(config, "listen/endpoints", list.as_str()) {
                Err(reason) => Err(endpoint_refusal(e, reason.as_str())),
                Ok(_) => {
                    let _ = insert_json5(config, "scouting/multicast/enabled", "false");
                    Ok(())
                },
            }
        },
    }
}

/// The frame that a tick publishes, if any, and the pacing after it.
pub struct Paced {
    pub since: nat,
    pub seq: nat,
    pub frame: Option<nat>,
}

/// One control tick: every `period`-th tick publishes the next frame.
pub open spec fn paced(period: nat, since: nat, seq: nat) -> Paced {
    if since + 1 < period {
        Paced { since: since + 1, seq, frame: None }
    } else {
        Paced { since: 0, seq: seq + 1, frame: Some(seq) }
    }
}

/// Thins the control ticks out to frames of the live stream.
#[derive(Debug)]
pub struct VizPublisher {
    key: String,
    seq: u64,
    period: u32,
    since: u32,
}

impl VizPublisher {
    #[verifier::type_invariant]
    spec fn in_step(self) -> bool {
        self.since < self.period
    }

    /// The key that frames are published on.
    pub closed spec fn key_text(self) -> Seq<char> {
        self.key@
    }

    /// The number of frames published.
    pub closed spec fn frames(self) -> nat {
        self.seq as nat
    }

    /// The control ticks from one frame to the next.
    pub closed spec fn period(self) -> nat {
        self.period as nat
    }

    /// The control ticks since the last frame.
    pub closed spec fn since(self) -> nat {
        self.since as nat
    }

    /// A publisher on `key` that publishes every `period`-th tick, and at every
    /// tick where `period` is 0.
    pub fn new(key: &str, period: u32) -> (r: VizPublisher)
        ensures
            r.key_text() == key@,
            r.frames() == 0,
            r.since() == 0,
            r.period() == (if period == 0 {
                1
            } else {
                period as nat
            }),
    {
        VizPublisher {
            key: key.to_owned(),
            seq: 0,
            period: if period == 0 {
                1
            } else {
                period
            },
            since: 0,
        }
    }

    /// The key that frames are published on.
    pub fn key(&self) -> (r: &str)
        ensures
            r@ == self.key_text(),
    {
        self.key.as_str()
    }

    /// The number of frames published.
    pub fn published(&self) -> (r: u64)
        ensures
            r == self.frames(),
    {
        self.seq
    }

    /// One control tick. Gives the number of the frame to publish, if one is due.
    pub fn publish(&mut self) -> (r: Option<u64>)
        requires
            old(self).frames() < u64::MAX,
        ensures
            final(self).key_text() == old(self).key_text(),
            final(self).period() == old(self).period(),
            ({
                let next = paced(old(self).period(), old(self).since(), old(self).frames());
                &&& final(self).since() == next.since
                &&& final(self).frames() == next.seq
                &&& match next.frame {
                    Some(n) => r == Some(n as u64),
                    None => r is None,
                }
            }),
            // A frame has the number of the frames before it, and comes when the
            // ticks since the last one make up a period.
            old(self).since() + 1 < old(self).period() ==> r is None && final(self).since() == old(
                self,
            ).since() + 1 && final(self).frames() == old(self).frames(),
            old(self).since() + 1 >= old(self).period() ==> r == Some(old(self).frames() as u64)
                && final(self).since() == 0 && final(self).frames() == old(self).frames() + 1,
    {
        proof {
            use_type_invariant(&*self);
        }
        let since: u32 = self.since + 1;
        if since < self.period {
            self.since = since;
            return None;
        }
        self.since = 0;
        let frame: u64 = self.seq;
        self.seq = frame + 1;
        Some(frame)
    }
}

/// The pacing after `n` control ticks.
pub open spec fn pace_after(period: nat, n: nat) -> Paced
    decreases n,
{
    if n == 0 {
        Paced { since: 0, seq: 0, frame: None }
    } else {
        let before = pace_after(period, (n - 1) as nat);
        paced(period, before.since, before.seq)
    }
}

/// Frames come at every `period`-th control tick and at no other, and are
/// numbered without gaps.
pub proof fn frames_are_evenly_spaced(period: nat, n: nat)
    requires
        period > 0,
    ensures
        pace_after(period, n).since == n % period,
        pace_after(period, n).seq == n / period,
        pace_after(period, n).frame == (if n > 0 && n % period == 0 {
            Some((n / period - 1) as nat)
        } else {
            None
        }),
    decreases n,
{
    if n > 0 {
        frames_are_evenly_spaced(period, (n - 1) as nat);
        let m = (n - 1) as int;
        let p = period as int;
        assert((m % p) + 1 < p ==> (m + 1) / p == m / p && (m + 1) % p == m % p + 1)
            by (nonlinear_arith)
            requires
                p > 0,
                m >= 0,
        ;
        assert((m % p) + 1 == p ==> (m + 1) / p == m / p + 1 && (m + 1) % p == 0)
            by (nonlinear_arith)
            requires
                p > 0,
                m >= 0,
        ;
        assert(m % p < p) by (nonlinear_arith)
            requires
                p > 0,
        ;
    } else {
        assert(0nat % period == 0 && 0nat / period == 0) by (nonlinear_arith)
            requires
                period > 0,
        ;
    }
}

/// `shown` is what `corrected` makes of the joints of a frame, three to a slot.
pub open spec fn corrected_slot_by_slot<T, F: Fn(usize, usize, T) -> T>(
    joints: Seq<T>,
    shown: Seq<T>,
    corrected: F,
) -> bool {
    forall|i: int|
        0 <= i < 12 ==> call_ensures(
            corrected,
            ((i / 3) as usize, (i % 3) as usize, joints[i]),
            #[trigger] shown[i],
        )
}

/// Brings the joints of a frame, slot by slot, from the gait's sign convention
/// into the model's.
pub fn corrected_joints<T: Copy, F: Fn(usize, usize, T) -> T>(
    joints: &[T; 12],
    corrected: F,
) -> (r: [T; 12])
    requires
        forall|slot: usize, kind: usize, q: T|
            slot < 4 && kind < 3 ==> call_requires(corrected, (slot, kind, q)),
    ensures
        forall|i: int|
            0 <= i < 12 ==> call_ensures(
                corrected,
                ((i / 3) as usize, (i % 3) as usize, joints@[i]),
                #[trigger] r@[i],
            ),
        corrected_slot_by_slot(joints@, r@, corrected),
{
    let mut out: [T; 12] = *joints;
    for i in 0..12usize
        invariant
            forall|slot: usize, kind: usize, q: T|
                slot < 4 && kind < 3 ==> call_requires(corrected, (slot, kind, q)),
            forall|j: int|
                0 <= j < i ==> call_ensures(
                    corrected,
                    ((j / 3) as usize, (j % 3) as usize, joints@[j]),
                    #[trigger] out@[j],
                ),
    {
        let value: T = corrected(i / 3, i % 3, joints[i]);
        out[i] = value;
    }
    out
}

/// A frame lists the joints slot by slot: hip, thigh and calf of each leg, as the
/// targets have them.
pub open spec fn lists_targets<T>(joints: Seq<T>, targets: Seq<(String, T)>) -> bool {
    &&& joints.len() == 12
    &&& forall|slot: int, kind: int|
        #![trigger joints[3 * slot + kind]]
        0 <= slot < 4 && 0 <= kind < 3 ==> {
            let last = last_with_motor(
                target_names(targets),
                base_motor_of(leg_at(slot)) + kind,
            );
            last is Some && targets[last->0].1 == joints[3 * slot + kind]
        }
}

/// A published frame shows the pose that is commanded: when the frame lists the
/// joints as the targets have them, and correcting a value has one result, the
/// joints shown are those that the motors get.
pub proof fn frames_show_the_commanded_pose<T, F: Fn(usize, usize, T) -> T>(
    targets: Seq<(String, T)>,
    q: Seq<T>,
    zero: T,
    joints: Seq<T>,
    shown: Seq<T>,
    corrected: F,
)
    requires
        lists_targets(joints, targets),
        forall|slot: usize, kind: usize, x: T, y: T, z: T| #[trigger]
            call_ensures(corrected, (slot, kind, x), y) && #[trigger]
            call_ensures(corrected, (slot, kind, x), z) ==> y == z,
        forall|m: int|
            0 <= m < 12 ==> motor_gets(#[trigger] q[m], m, targets, zero, corrected),
        corrected_slot_by_slot(joints, shown, corrected),
    ensures
        forall|slot: int, kind: int|
            #![trigger shown[3 * slot + kind]]
            0 <= slot < 4 && 0 <= kind < 3 ==> shown[3 * slot + kind] == q[base_motor_of(
                leg_at(slot),
            ) + kind],
{
    assert forall|slot: int, kind: int|
        #![trigger shown[3 * slot + kind]]
        0 <= slot < 4 && 0 <= kind < 3 implies shown[3 * slot + kind] == q[base_motor_of(
        leg_at(slot),
    ) + kind] by {
        let i = 3 * slot + kind;
        let m = base_motor_of(leg_at(slot)) + kind;
        assert(i / 3 == slot && i % 3 == kind);
        assert(joints[3 * slot + kind] == joints[i]);
        assert(motor_gets(q[m], m, targets, zero, corrected));
        lemma_last_in_range(target_names(targets), m);
        let at = last_with_motor(target_names(targets), m)->0;
        assert(motor_named(target_names(targets)[at]) == Some(m));
        assert(call_ensures(
            corrected,
            ((i / 3) as usize, (i % 3) as usize, joints[i]),
            shown[i],
        ));
    }
}

/// The settings of the stream come from their own flags; without them nothing is
/// streamed, the key is the usual one, the rate 100 frames per second, and
/// discovery is left on.
pub proof fn stream_settings_come_from_their_flags(cli: CliText, planned: Seq<char>)
    ensures
        ({
            let viz = viz_asked(cli, planned);
            &&& viz.enabled <==> cli.is_on("viz"@)
            &&& cli.flags.contains_key("viz-key"@) ==> viz.key == cli.flags["viz-key"@]
            &&& !cli.flags.contains_key("viz-key"@) ==> viz.key == planned
            &&& cli.number("viz-rate"@) matches Some(n) ==> viz.rate_hz == n
            &&& cli.number("viz-rate"@) is None ==> viz.rate_hz == "100.0"@
            &&& cli.flags.contains_key("viz-endpoint"@) ==> viz.endpoint == Some(
                cli.flags["viz-endpoint"@],
            )
            &&& !cli.flags.contains_key("viz-endpoint"@) ==> viz.endpoint is None
        }),
{
}

/// Where a session listens is offered as a list of one: the endpoint in quotation
/// marks and brackets, under the setting for listening; discovery by multicast has
/// a setting of its own.
pub proof fn one_endpoint_is_listed(endpoint: Seq<char>)
    ensures
        endpoint_list(endpoint) == seq!['[', '"'] + endpoint + seq!['"', ']'],
        listen_key() == "listen/endpoints"@,
        multicast_key() == "scouting/multicast/enabled"@,
{
    reveal_strlit("[\"");
    reveal_strlit("\"]");
    assert("[\""@ =~= seq!['[', '"']);
    assert("\"]"@ =~= seq!['"', ']']);
}

} // verus!
