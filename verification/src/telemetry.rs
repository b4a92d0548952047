//! The telemetry table: one line per recorded control tick.

use vstd::prelude::*;

use crate::joints::kind_word;
use crate::joints::leg_code;
use crate::joints::leg_letters;
use crate::legs::leg_of_motor;
use crate::legs::LegId;
use crate::text::glue;
use crate::text::glue3;
use crate::text::join;
use crate::text::joined;
use crate::text::joined_pieces;
use crate::text::texts;

verus! {

/// The number of columns before those of the joints.
pub const LEAD_COLUMNS: usize = 22;

/// A line of the table.
pub open spec fn csv_line(cells: Seq<Seq<char>>) -> Seq<char> {
    joined(cells, ","@) + "\n"@
}

/// The columns before those of the joints: time and phase, attitude, power and
/// feet.
pub open spec fn lead_column(i: usize) -> Seq<char> {
    match i {
        0 => "t_s"@,
        1 => "phase"@,
        2 => "roll"@,
        3 => "pitch"@,
        4 => "yaw"@,
        5 => "gyro_x"@,
        6 => "gyro_y"@,
        7 => "gyro_z"@,
        8 => "acc_x"@,
        9 => "acc_y"@,
        10 => "acc_z"@,
        11 => "quat_w"@,
        12 => "quat_x"@,
        13 => "quat_y"@,
        14 => "quat_z"@,
        15 => "imu_temp"@,
        16 => "power_v"@,
        17 => "power_a"@,
        18 => "foot0"@,
        19 => "foot1"@,
        20 => "foot2"@,
        _ => "foot3"@,
    }
}

/// The short name of the joint at a motor.
pub open spec fn motor_label(m: int) -> Seq<char> {
    leg_code(leg_of_motor(m)) + "_"@ + kind_word(m % 3)
}

/// The columns of the first `n` motors: commanded angle, measured angle, speed
/// and torque of each.
pub open spec fn joint_columns(n: nat) -> Seq<Seq<char>>
    decreases n,
{
    if n == 0 {
        Seq::empty()
    } else {
        joint_columns((n - 1) as nat) + seq![
            motor_label(n - 1) + "_cmd"@,
            motor_label(n - 1) + "_q"@,
            motor_label(n - 1) + "_dq"@,
            motor_label(n - 1) + "_tau"@,
        ]
    }
}

/// The columns of the table.
pub open spec fn csv_columns() -> Seq<Seq<char>> {
    Seq::new(LEAD_COLUMNS as nat, |i: int| lead_column(i as usize)) + joint_columns(12)
}

/// The cells of a line.
pub open spec fn row_cells(lead: Seq<Seq<char>>, joints: Seq<Seq<char>>) -> Seq<Seq<char>> {
    lead + joints
}

/// The short name of the joint at a motor.
pub fn motor_name(m: usize) -> (r: String)
    requires
        m < 12,
    ensures
        r@ == motor_label(m as int),
{
    let leg: LegId = if m < 3 {
        LegId::FR
    } else if m < 6 {
        LegId::FL
    } else if m < 9 {
        LegId::RR
    } else {
        LegId::RL
    };
    let word: &'static str = match m % 3 {
        0 => "hip",
        1 => "thigh",
        _ => "calf",
    };
    glue3(leg_letters(leg), "_", word)
}

fn push_text(cells: &mut Vec<String>, cell: &str)
    ensures
        texts(final(cells)@) == texts(old(cells)@).push(cell@),
{
    cells.push(cell.to_owned());
    assert(texts(cells@) =~= texts(old(cells)@).push(cell@));
}

fn push_texts(cells: &mut Vec<String>, more: &Vec<String>)
    ensures
        texts(final(cells)@) == texts(old(cells)@) + texts(more@),
{
    for i in 0..more.len()
        invariant
            texts(cells@) == texts(old(cells)@) + texts(more@).take(i as int),
    {
        push_text(cells, more[i].as_str());
        assert(texts(cells@) =~= texts(old(cells)@) + texts(more@).take(i + 1));
    }
    assert(texts(more@).take(more@.len() as int) =~= texts(more@));
}

fn line(cells: &Vec<String>) -> (r: String)
    ensures
        r@ == csv_line(texts(cells@)),
{
    let mut out: String = join(cells, ",");
    out.append("\n");
    out
}

/// The name of a column before those of the joints.
fn lead_name(i: usize) -> (r: &'static str)
    requires
        i < LEAD_COLUMNS,
    ensures
        r@ == lead_column(i),
{
    match i {
        0 => "t_s",
        1 => "phase",
        2 => "roll",
        3 => "pitch",
        4 => "yaw",
        5 => "gyro_x",
        6 => "gyro_y",
        7 => "gyro_z",
        8 => "acc_x",
        9 => "acc_y",
        10 => "acc_z",
        11 => "quat_w",
        12 => "quat_x",
        13 => "quat_y",
        14 => "quat_z",
        15 => "imu_temp",
        16 => "power_v",
        17 => "power_a",
        18 => "foot0",
        19 => "foot1",
        20 => "foot2",
        _ => "foot3",
    }
}

/// The first line of the table: the names of its columns.
pub fn csv_header() -> (r: String)
    ensures
        r@ == csv_line(csv_columns()),
{
    let ghost lead = Seq::new(LEAD_COLUMNS as nat, |i: int| lead_column(i as usize));
    let mut columns: Vec<String> = Vec::new();
    for i in 0..LEAD_COLUMNS
        invariant
            lead == Seq::new(LEAD_COLUMNS as nat, |i: int| lead_column(i as usize)),
            texts(columns@) == lead.take(i as int),
    {
        push_text(&mut columns, lead_name(i));
        assert(texts(columns@) =~= lead.take(i + 1));
    }
    assert(texts(columns@) =~= lead + joint_columns(0));
    for m in 0..12usize
        invariant
            texts(columns@) == lead + joint_columns(m as nat),
    {
        let name: String = motor_name(m);
        push_text(&mut columns, glue(name.as_str(), "_cmd").as_str());
        push_text(&mut columns, glue(name.as_str(), "_q").as_str());
        push_text(&mut columns, glue(name.as_str(), "_dq").as_str());
        push_text(&mut columns, glue(name.as_str(), "_tau").as_str());
        assert(texts(columns@) =~= lead + joint_columns((m + 1) as nat));
    }
    line(&columns)
}

/// A line of the table: the leading cells, then those of the joints.
pub fn csv_row(lead: &Vec<String>, joints: &Vec<String>) -> (r: String)
    ensures
        r@ == csv_line(row_cells(texts(lead@), texts(joints@))),
{
    let mut cells: Vec<String> = Vec::new();
    assert(texts(cells@) =~= Seq::<Seq<char>>::empty());
    push_texts(&mut cells, lead);
    assert(texts(cells@) =~= texts(lead@));
    push_texts(&mut cells, joints);
    line(&cells)
}

/// The cells of a motor in a line of the table.
#[derive(Debug)]
pub struct MotorRecord {
    /// The commanded angle.
    pub cmd: String,
    /// The measured angle.
    pub q: String,
    /// The measured speed.
    pub dq: String,
    /// The estimated torque.
    pub tau: String,
}

/// A line of the table, cell by cell: one for every column, under its name, and
/// four for every motor.
#[derive(Debug)]
pub struct TelemetryRecord {
    pub t_s: String,
    pub phase: String,
    pub roll: String,
    pub pitch: String,
    pub yaw: String,
    pub gyro_x: String,
    pub gyro_y: String,
    pub gyro_z: String,
    pub acc_x: String,
    pub acc_y: String,
    pub acc_z: String,
    pub quat_w: String,
    pub quat_x: String,
    pub quat_y: String,
    pub quat_z: String,
    pub imu_temp: String,
    pub power_v: String,
    pub power_a: String,
    pub foot0: String,
    pub foot1: String,
    pub foot2: String,
    pub foot3: String,
    pub motors: [MotorRecord; 12],
}

/// The leading cells of a line.
pub open spec fn lead_cells(record: TelemetryRecord) -> Seq<Seq<char>> {
    seq![
        record.t_s@,
        record.phase@,
        record.roll@,
        record.pitch@,
        record.yaw@,
        record.gyro_x@,
        record.gyro_y@,
        record.gyro_z@,
        record.acc_x@,
        record.acc_y@,
        record.acc_z@,
        record.quat_w@,
        record.quat_x@,
        record.quat_y@,
        record.quat_z@,
        record.imu_temp@,
        record.power_v@,
        record.power_a@,
        record.foot0@,
        record.foot1@,
        record.foot2@,
        record.foot3@,
    ]
}

/// The cells of the first `n` motors of a line.
pub open spec fn motor_cells(record: TelemetryRecord, n: nat) -> Seq<Seq<char>>
    decreases n,
{
    if n == 0 {
        Seq::empty()
    } else {
        let motor = record.motors@[n - 1];
        motor_cells(record, (n - 1) as nat) + seq![motor.cmd@, motor.q@, motor.dq@, motor.tau@]
    }
}

/// The cells of a line.
pub open spec fn record_cells(record: TelemetryRecord) -> Seq<Seq<char>> {
    row_cells(lead_cells(record), motor_cells(record, 12))
}

/// The column at `place` has the given name, and the cell there is `value`.
pub open spec fn stands_in(
    cells: Seq<Seq<char>>,
    place: int,
    name: Seq<char>,
    value: Seq<char>,
) -> bool {
    csv_columns()[place] == name && cells[place] == value
}

/// The cells of a motor stand in the columns of that motor.
pub open spec fn motor_in_columns(
    cells: Seq<Seq<char>>,
    m: int,
    motor: MotorRecord,
) -> bool {
    &&& stands_in(cells, 22 + 4 * m, motor_label(m) + "_cmd"@, motor.cmd@)
    &&& stands_in(cells, 22 + 4 * m + 1, motor_label(m) + "_q"@, motor.q@)
    &&& stands_in(cells, 22 + 4 * m + 2, motor_label(m) + "_dq"@, motor.dq@)
    &&& stands_in(cells, 22 + 4 * m + 3, motor_label(m) + "_tau"@, motor.tau@)
}

/// There is a cell for every column, and each stands in the column of its name.
pub open spec fn in_columns(cells: Seq<Seq<char>>, record: TelemetryRecord) -> bool {
    &&& cells.len() == csv_columns().len()
    &&& stands_in(cells, 0, "t_s"@, record.t_s@)
    &&& stands_in(cells, 1, "phase"@, record.phase@)
    &&& stands_in(cells, 2, "roll"@, record.roll@)
    &&& stands_in(cells, 3, "pitch"@, record.pitch@)
    &&& stands_in(cells, 4, "yaw"@, record.yaw@)
    &&& stands_in(cells, 5, "gyro_x"@, record.gyro_x@)
    &&& stands_in(cells, 6, "gyro_y"@, record.gyro_y@)
    &&& stands_in(cells, 7, "gyro_z"@, record.gyro_z@)
    &&& stands_in(cells, 8, "acc_x"@, record.acc_x@)
    &&& stands_in(cells, 9, "acc_y"@, record.acc_y@)
    &&& stands_in(cells, 10, "acc_z"@, record.acc_z@)
    &&& stands_in(cells, 11, "quat_w"@, record.quat_w@)
    &&& stands_in(cells, 12, "quat_x"@, record.quat_x@)
    &&& stands_in(cells, 13, "quat_y"@, record.quat_y@)
    &&& stands_in(cells, 14, "quat_z"@, record.quat_z@)
    &&& stands_in(cells, 15, "imu_temp"@, record.imu_temp@)
    &&& stands_in(cells, 16, "power_v"@, record.power_v@)
    &&& stands_in(cells, 17, "power_a"@, record.power_a@)
    &&& stands_in(cells, 18, "foot0"@, record.foot0@)
    &&& stands_in(cells, 19, "foot1"@, record.foot1@)
    &&& stands_in(cells, 20, "foot2"@, record.foot2@)
    &&& stands_in(cells, 21, "foot3"@, record.foot3@)
    &&& forall|m: int|
        0 <= m < 12 ==> motor_in_columns(cells, m, #[trigger] record.motors@[m])
}

/// The line of the table for a record: every cell stands in the column of its
/// name.
pub fn csv_record(record: &TelemetryRecord) -> (r: String)
    ensures
        r@ == csv_line(record_cells(*record)),
        in_columns(record_cells(*record), *record),
        record_cells(*record).len() == 70,
        record_cells(*record)[0] == record.t_s@ && csv_columns()[0] == "t_s"@,
        record_cells(*record)[1] == record.phase@ && csv_columns()[1] == "phase"@,
        record_cells(*record)[2] == record.roll@ && csv_columns()[2] == "roll"@,
        record_cells(*record)[3] == record.pitch@ && csv_columns()[3] == "pitch"@,
        record_cells(*record)[4] == record.yaw@ && csv_columns()[4] == "yaw"@,
        record_cells(*record)[5] == record.gyro_x@ && csv_columns()[5] == "gyro_x"@,
        record_cells(*record)[6] == record.gyro_y@ && csv_columns()[6] == "gyro_y"@,
        record_cells(*record)[7] == record.gyro_z@ && csv_columns()[7] == "gyro_z"@,
        record_cells(*record)[8] == record.acc_x@ && csv_columns()[8] == "acc_x"@,
        record_cells(*record)[9] == record.acc_y@ && csv_columns()[9] == "acc_y"@,
        record_cells(*record)[10] == record.acc_z@ && csv_columns()[10] == "acc_z"@,
        record_cells(*record)[11] == record.quat_w@ && csv_columns()[11] == "quat_w"@,
        record_cells(*record)[12] == record.quat_x@ && csv_columns()[12] == "quat_x"@,
        record_cells(*record)[13] == record.quat_y@ && csv_columns()[13] == "quat_y"@,
        record_cells(*record)[14] == record.quat_z@ && csv_columns()[14] == "quat_z"@,
        record_cells(*record)[15] == record.imu_temp@ && csv_columns()[15] == "imu_temp"@,
        record_cells(*record)[16] == record.power_v@ && csv_columns()[16] == "power_v"@,
        record_cells(*record)[17] == record.power_a@ && csv_columns()[17] == "power_a"@,
        record_cells(*record)[18] == record.foot0@ && csv_columns()[18] == "foot0"@,
        record_cells(*record)[19] == record.foot1@ && csv_columns()[19] == "foot1"@,
        record_cells(*record)[20] == record.foot2@ && csv_columns()[20] == "foot2"@,
        record_cells(*record)[21] == record.foot3@ && csv_columns()[21] == "foot3"@,
        forall|m: int|
            0 <= m < 12 ==> {
                let motor = #[trigger] record.motors@[m];
                &&& record_cells(*record)[22 + 4 * m] == motor.cmd@
                &&& record_cells(*record)[23 + 4 * m] == motor.q@
                &&& record_cells(*record)[24 + 4 * m] == motor.dq@
                &&& record_cells(*record)[25 + 4 * m] == motor.tau@
            },
{
    let mut lead: Vec<String> = Vec::new();
    assert(texts(lead@) =~= Seq::<Seq<char>>::empty());
    push_text(&mut lead, record.t_s.as_str());
    push_text(&mut lead, record.phase.as_str());
    push_text(&mut lead, record.roll.as_str());
    push_text(&mut lead, record.pitch.as_str());
    push_text(&mut lead, record.yaw.as_str());
    push_text(&mut lead, record.gyro_x.as_str());
    push_text(&mut lead, record.gyro_y.as_str());
    push_text(&mut lead, record.gyro_z.as_str());
    push_text(&mut lead, record.acc_x.as_str());
    push_text(&mut lead, record.acc_y.as_str());
    push_text(&mut lead, record.acc_z.as_str());
    push_text(&mut lead, record.quat_w.as_str());
    push_text(&mut lead, record.quat_x.as_str());
    push_text(&mut lead, record.quat_y.as_str());
    push_text(&mut lead, record.quat_z.as_str());
    push_text(&mut lead, record.imu_temp.as_str());
    push_text(&mut lead, record.power_v.as_str());
    push_text(&mut lead, record.power_a.as_str());
    push_text(&mut lead, record.foot0.as_str());
    push_text(&mut lead, record.foot1.as_str());
    push_text(&mut lead, record.foot2.as_str());
    push_text(&mut lead, record.foot3.as_str());
    assert(texts(lead@) =~= lead_cells(*record));
    let mut joints: Vec<String> = Vec::new();
    assert(texts(joints@) =~= motor_cells(*record, 0));
    for m in 0..12usize
        invariant
            texts(joints@) == motor_cells(*record, m as nat),
    {
        push_text(&mut joints, record.motors[m].cmd.as_str());
        push_text(&mut joints, record.motors[m].q.as_str());
        push_text(&mut joints, record.motors[m].dq.as_str());
        push_text(&mut joints, record.motors[m].tau.as_str());
        assert(texts(joints@) =~= motor_cells(*record, (m + 1) as nat));
    }
    proof {
        cells_stand_in_their_columns(*record);
        lemma_joint_columns(12);
        lemma_motor_cells(*record, 12);
    }
    csv_row(&lead, &joints)
}

/// Every cell of a record stands in the column of its name.
pub proof fn cells_stand_in_their_columns(record: TelemetryRecord)
    ensures
        in_columns(record_cells(record), record),
{
    let cells = record_cells(record);
    lemma_joint_columns(12);
    lemma_motor_cells(record, 12);
    assert forall|m: int| 0 <= m < 12 implies motor_in_columns(
        cells,
        m,
        #[trigger] record.motors@[m],
    ) by {
        let label = motor_label(m);
        assert(csv_columns()[22 + 4 * m] == joint_columns(12)[4 * m]);
        assert(csv_columns()[22 + 4 * m + 1] == joint_columns(12)[4 * m + 1]);
        assert(csv_columns()[22 + 4 * m + 2] == joint_columns(12)[4 * m + 2]);
        assert(csv_columns()[22 + 4 * m + 3] == joint_columns(12)[4 * m + 3]);
    }
}

proof fn lemma_motor_cells(record: TelemetryRecord, n: nat)
    ensures
        motor_cells(record, n).len() == 4 * n,
        forall|m: int|
            0 <= m < n ==> {
                let motor = #[trigger] record.motors@[m];
                &&& motor_cells(record, n)[4 * m] == motor.cmd@
                &&& motor_cells(record, n)[4 * m + 1] == motor.q@
                &&& motor_cells(record, n)[4 * m + 2] == motor.dq@
                &&& motor_cells(record, n)[4 * m + 3] == motor.tau@
            },
    decreases n,
{
    if n > 0 {
        lemma_motor_cells(record, (n - 1) as nat);
    }
}

/// The table has 70 columns, and a line with all its leading cells and four cells
/// for every motor has a cell for each of them.
pub proof fn lines_fit_the_columns(lead: Seq<Seq<char>>, joints: Seq<Seq<char>>)
    requires
        lead.len() == LEAD_COLUMNS,
        joints.len() == 4 * 12,
    ensures
        csv_columns().len() == 70,
        row_cells(lead, joints).len() == csv_columns().len(),
{
    lemma_joint_columns(12);
}

/// The columns of a motor stand together, in motor order.
pub proof fn joint_columns_are_in_motor_order(m: int)
    requires
        0 <= m < 12,
    ensures
        csv_columns()[22 + 4 * m] == motor_label(m) + "_cmd"@,
        csv_columns()[23 + 4 * m] == motor_label(m) + "_q"@,
        csv_columns()[24 + 4 * m] == motor_label(m) + "_dq"@,
        csv_columns()[25 + 4 * m] == motor_label(m) + "_tau"@,
{
    lemma_joint_columns(12);
}

proof fn lemma_joint_columns(n: nat)
    ensures
        joint_columns(n).len() == 4 * n,
        forall|m: int|
            #![trigger motor_label(m)]
            0 <= m < n ==> {
                &&& joint_columns(n)[4 * m] == motor_label(m) + "_cmd"@
                &&& joint_columns(n)[4 * m + 1] == motor_label(m) + "_q"@
                &&& joint_columns(n)[4 * m + 2] == motor_label(m) + "_dq"@
                &&& joint_columns(n)[4 * m + 3] == motor_label(m) + "_tau"@
            },
    decreases n,
{
    if n > 0 {
        lemma_joint_columns((n - 1) as nat);
    }
}

/// Whether a step of a long computation is shown: every `every`-th one, from the
/// first.
pub fn is_shown(step: u64, every: u64) -> (r: bool)
    requires
        every > 0,
    ensures
        r == (step % every == 0),
{
    step % every == 0
}

/// How many samples go by from one shown on the console to the next.
pub const SAMPLES_PER_LINE: u64 = 25;

/// How many ticks of the limit check go by from one shown to the next.
pub const CHECKED_TICKS_PER_LINE: u64 = 100;

/// How many ticks of an intended gait go by from one shown to the next.
pub const INTENDED_TICKS_PER_LINE: u64 = 50;

/// A line is its cells with commas between them and a line break at the end: one
/// more cell comes after a comma, in front of the break.
pub proof fn lines_are_made_of_cells(cells: Seq<Seq<char>>, cell: Seq<char>)
    ensures
        csv_line(seq![cell]) == cell + seq!['\n'],
        cells.len() > 0 ==> csv_line(cells.push(cell)) == csv_line(cells).drop_last() + seq![',']
            + cell + seq!['\n'],
{
    reveal_strlit(",");
    reveal_strlit("\n");
    assert(","@ =~= seq![',']);
    assert("\n"@ =~= seq!['\n']);
    let one = seq![cell];
    assert(one.drop_last() =~= Seq::<Seq<char>>::empty());
    assert(csv_line(one) =~= cell + seq!['\n']) by {
        reveal_with_fuel(joined, 2);
    }
    if cells.len() > 0 {
        joined_pieces(cells, one, ","@);
        assert(cells.push(cell) =~= cells + one);
        assert(joined(one, ","@) =~= cell) by {
            reveal_with_fuel(joined, 2);
        }
        assert(csv_line(cells).drop_last() =~= joined(cells, ","@));
        assert(csv_line(cells.push(cell)) =~= csv_line(cells).drop_last() + seq![','] + cell
            + seq!['\n']);
    }
}

/// The motors are named by leg and joint: three to a leg, the right front leg
/// first, then the left front, the right rear and the left rear; hip, thigh and
/// calf in each.
pub proof fn motors_are_named_by_leg_and_joint(m: int)
    requires
        0 <= m < 12,
    ensures
        ({
            let leg = if m < 3 {
                "FR"@
            } else if m < 6 {
                "FL"@
            } else if m < 9 {
                "RR"@
            } else {
                "RL"@
            };
            let joint = if m == 0 || m == 3 || m == 6 || m == 9 {
                "hip"@
            } else if m == 1 || m == 4 || m == 7 || m == 10 {
                "thigh"@
            } else {
                "calf"@
            };
            motor_label(m) == leg + seq!['_'] + joint
        }),
{
    reveal_strlit("_");
    assert("_"@ =~= seq!['_']);
}

/// A line gives the leading cells first and those of the joints after them.
pub proof fn leading_cells_come_first(lead: Seq<Seq<char>>, joints: Seq<Seq<char>>, i: int)
    ensures
        0 <= i < lead.len() ==> row_cells(lead, joints)[i] == lead[i],
        0 <= i < joints.len() ==> row_cells(lead, joints)[lead.len() + i] == joints[i],
        row_cells(lead, joints).len() == lead.len() + joints.len(),
{
}

} // verus!
