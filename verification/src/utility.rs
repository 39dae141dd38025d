//! The options of the controller utilities: the direct rumble test and the
//! IMU sweep. Frequencies, intensities and amplitudes are kept as written;
//! the caller reads them as numbers.
use vstd::prelude::*;
use vstd::string::StringExecFns;

use crate::config::args_view;
use crate::joycon::{clamp_test_duration_ms, joycon_side_named, parse_joycon_side, parse_u64, JoyConSide};
use crate::text::{chars_eq, chars_of, lemma_digits_nonnegative, parse_unsigned_spec, unsigned_digits};

verus! {

broadcast use vstd::string::group_string_axioms;

/// One option of the rumble test.
#[derive(Debug, Clone, PartialEq, Eq)]
pub enum RumbleTestOption {
    Side(JoyConSide),
    /// The duration in milliseconds, already clamped to `20..=1000`.
    DurationMs(u64),
    Intensity(String),
    LowFreq(String),
    HighFreq(String),
    Help,
}

/// The value of a rumble test option.
pub enum RumbleTestModel {
    Side(JoyConSide),
    DurationMs(u64),
    Intensity(Seq<char>),
    LowFreq(Seq<char>),
    HighFreq(Seq<char>),
    Help,
}

impl RumbleTestOption {
    pub open spec fn model(self) -> RumbleTestModel {
        match self {
            RumbleTestOption::Side(s) => RumbleTestModel::Side(s),
            RumbleTestOption::DurationMs(d) => RumbleTestModel::DurationMs(d),
            RumbleTestOption::Intensity(t) => RumbleTestModel::Intensity(t@),
            RumbleTestOption::LowFreq(t) => RumbleTestModel::LowFreq(t@),
            RumbleTestOption::HighFreq(t) => RumbleTestModel::HighFreq(t@),
            RumbleTestOption::Help => RumbleTestModel::Help,
        }
    }
}

/// One option of the IMU sweep.
#[derive(Debug, Clone, PartialEq, Eq)]
pub enum SweepOption {
    Side(JoyConSide),
    LowStart(String),
    LowEnd(String),
    LowStep(String),
    Amplitudes(String),
    MeasureMs(u64),
    SettleMs(u64),
    Output(String),
    Profile(String),
    Help,
}

/// The value of an IMU sweep option.
pub enum SweepModel {
    Side(JoyConSide),
    LowStart(Seq<char>),
    LowEnd(Seq<char>),
    LowStep(Seq<char>),
    Amplitudes(Seq<char>),
    MeasureMs(u64),
    SettleMs(u64),
    Output(Seq<char>),
    Profile(Seq<char>),
    Help,
}

impl SweepOption {
    pub open spec fn model(self) -> SweepModel {
        match self {
            SweepOption::Side(s) => SweepModel::Side(s),
            SweepOption::LowStart(t) => SweepModel::LowStart(t@),
            SweepOption::LowEnd(t) => SweepModel::LowEnd(t@),
            SweepOption::LowStep(t) => SweepModel::LowStep(t@),
            SweepOption::Amplitudes(t) => SweepModel::Amplitudes(t@),
            SweepOption::MeasureMs(v) => SweepModel::MeasureMs(v),
            SweepOption::SettleMs(v) => SweepModel::SettleMs(v),
            SweepOption::Output(t) => SweepModel::Output(t@),
            SweepOption::Profile(t) => SweepModel::Profile(t@),
            SweepOption::Help => SweepModel::Help,
        }
    }
}

/// The value following the option at `index`, or the message that it is missing.
pub open spec fn utility_value_spec(args: Seq<Seq<char>>, index: int, name: Seq<char>) -> Result<Seq<char>, Seq<char>> {
    if index + 1 < args.len() {
        Ok(args[index + 1])
    } else {
        Err(name + " needs a value"@)
    }
}

/// The side a `--side` value names, or the message that it names none.
pub open spec fn side_value_spec(value: Seq<char>) -> Result<JoyConSide, Seq<char>> {
    match joycon_side_named(value) {
        Some(side) => Ok(side),
        None => Err("--side must be left or right, got "@ + value),
    }
}

/// An integer option value, or the message that it is none.
pub open spec fn integer_value_spec(value: Seq<char>, name: Seq<char>) -> Result<u64, Seq<char>> {
    match parse_unsigned_spec(value, u64::MAX as int) {
        Some(v) => Ok(v as u64),
        None => Err(name + " must be integer"@),
    }
}

/// An option that takes text, and the index after its value.
pub open spec fn text_value<M>(args: Seq<Seq<char>>, index: int, name: Seq<char>, make: spec_fn(Seq<char>) -> M) -> Result<(M, int), Seq<char>> {
    match utility_value_spec(args, index, name) {
        Ok(v) => Ok((make(v), index + 2)),
        Err(m) => Err(m),
    }
}

/// An option that takes an integer, and the index after its value.
pub open spec fn integer_option<M>(args: Seq<Seq<char>>, index: int, name: Seq<char>, make: spec_fn(u64) -> M) -> Result<(M, int), Seq<char>> {
    match utility_value_spec(args, index, name) {
        Ok(v) => match integer_value_spec(v, name) {
            Ok(n) => Ok((make(n), index + 2)),
            Err(m) => Err(m),
        },
        Err(m) => Err(m),
    }
}

/// The `--side` option, and the index after its value.
pub open spec fn side_option<M>(args: Seq<Seq<char>>, index: int, make: spec_fn(JoyConSide) -> M) -> Result<(M, int), Seq<char>> {
    match utility_value_spec(args, index, "--side"@) {
        Ok(v) => match side_value_spec(v) {
            Ok(side) => Ok((make(side), index + 2)),
            Err(m) => Err(m),
        },
        Err(m) => Err(m),
    }
}

/// The rumble test option at `index` and where the next one starts.
pub open spec fn rumble_test_option_spec(args: Seq<Seq<char>>, index: int) -> Result<(RumbleTestModel, int), Seq<char>> {
    let a = args[index];
    if a == "--side"@ {
        side_option(args, index, |s: JoyConSide| RumbleTestModel::Side(s))
    } else if a == "--duration-ms"@ {
        integer_option(
            args,
            index,
            "--duration-ms"@,
            |v: u64| RumbleTestModel::DurationMs(if v < 20 { 20 } else if v > 1000 { 1000 } else { v }),
        )
    } else if a == "--intensity"@ {
        text_value(args, index, "--intensity"@, |t: Seq<char>| RumbleTestModel::Intensity(t))
    } else if a == "--low-freq"@ {
        text_value(args, index, "--low-freq"@, |t: Seq<char>| RumbleTestModel::LowFreq(t))
    } else if a == "--high-freq"@ {
        text_value(args, index, "--high-freq"@, |t: Seq<char>| RumbleTestModel::HighFreq(t))
    } else if a == "--help"@ || a == "-h"@ {
        Ok((RumbleTestModel::Help, index + 1))
    } else {
        Err("unknown joycon-rumble-test argument: "@ + a)
    }
}

/// The IMU sweep option at `index` and where the next one starts.
pub open spec fn sweep_option_spec(args: Seq<Seq<char>>, index: int) -> Result<(SweepModel, int), Seq<char>> {
    let a = args[index];
    if a == "--side"@ {
        side_option(args, index, |s: JoyConSide| SweepModel::Side(s))
    } else if a == "--low-start"@ {
        text_value(args, index, "--low-start"@, |t: Seq<char>| SweepModel::LowStart(t))
    } else if a == "--low-end"@ {
        text_value(args, index, "--low-end"@, |t: Seq<char>| SweepModel::LowEnd(t))
    } else if a == "--low-step"@ {
        text_value(args, index, "--low-step"@, |t: Seq<char>| SweepModel::LowStep(t))
    } else if a == "--amplitudes"@ {
        text_value(args, index, "--amplitudes"@, |t: Seq<char>| SweepModel::Amplitudes(t))
    } else if a == "--measure-ms"@ {
        integer_option(args, index, "--measure-ms"@, |v: u64| SweepModel::MeasureMs(v))
    } else if a == "--settle-ms"@ {
        integer_option(args, index, "--settle-ms"@, |v: u64| SweepModel::SettleMs(v))
    } else if a == "--output"@ {
        text_value(args, index, "--output"@, |t: Seq<char>| SweepModel::Output(t))
    } else if a == "--profile"@ {
        text_value(args, index, "--profile"@, |t: Seq<char>| SweepModel::Profile(t))
    } else if a == "--help"@ || a == "-h"@ {
        Ok((SweepModel::Help, index + 1))
    } else {
        Err("unknown joycon-imu-sweep argument: "@ + a)
    }
}

/// The value after the option at `index`.
fn utility_value(args: &Vec<String>, index: usize, name: &str) -> (r: Result<String, String>)
    requires
        index < args@.len(),
    ensures
        match utility_value_spec(args_view(args@), index as int, name@) {
            Ok(v) => r matches Ok(s) && s@ == v,
            Err(m) => r matches Err(e) && e@ == m,
        },
{
    if args.len() - index > 1 {
        assert(args_view(args@)[index + 1] == args@[index + 1]@);
        Ok(args[index + 1].clone())
    } else {
        let mut m = name.to_owned();
        m.append(" needs a value");
        Err(m)
    }
}

/// The side named by the value after `--side` at `index`.
fn side_value(args: &Vec<String>, index: usize) -> (r: Result<JoyConSide, String>)
    requires
        index < args@.len(),
    ensures
        match utility_value_spec(args_view(args@), index as int, "--side"@) {
            Ok(v) => match side_value_spec(v) {
                Ok(side) => r == Ok::<JoyConSide, String>(side),
                Err(m) => r matches Err(e) && e@ == m,
            },
            Err(m) => r matches Err(e) && e@ == m,
        },
{
    let value = match utility_value(args, index, "--side") {
        Ok(v) => v,
        Err(e) => return Err(e),
    };
    match parse_joycon_side(value.as_str()) {
        Some(side) => Ok(side),
        None => {
            let mut m = "--side must be left or right, got ".to_owned();
            m.append(value.as_str());
            Err(m)
        },
    }
}

/// The integer after the option `name` at `index`.
fn integer_value(args: &Vec<String>, index: usize, name: &str) -> (r: Result<u64, String>)
    requires
        index < args@.len(),
    ensures
        match utility_value_spec(args_view(args@), index as int, name@) {
            Ok(v) => match integer_value_spec(v, name@) {
                Ok(n) => r == Ok::<u64, String>(n),
                Err(m) => r matches Err(e) && e@ == m,
            },
            Err(m) => r matches Err(e) && e@ == m,
        },
{
    let value = match utility_value(args, index, name) {
        Ok(v) => v,
        Err(e) => return Err(e),
    };
    parse_u64(value.as_str(), name)
}

/// Reads the rumble test option at `index`: what it sets and where the next
/// option starts.
pub fn rumble_test_option(args: &Vec<String>, index: usize) -> (r: Result<(RumbleTestOption, usize), String>)
    requires
        index < args@.len(),
        args@.len() + 2 <= usize::MAX,
    ensures
        match rumble_test_option_spec(args_view(args@), index as int) {
            Ok((option, next)) => r matches Ok((o, n)) && o.model() == option && n == next,
            Err(m) => r matches Err(e) && e@ == m,
        },
{
    let ghost view = args_view(args@);
    assert(view[index as int] == args@[index as int]@);
    let a = chars_of(args[index].as_str());
    if chars_eq(&a, &chars_of("--side")) {
        return match side_value(args, index) {
            Ok(side) => Ok((RumbleTestOption::Side(side), index + 2)),
            Err(e) => Err(e),
        };
    }
    if chars_eq(&a, &chars_of("--duration-ms")) {
        return match integer_value(args, index, "--duration-ms") {
            Ok(v) => Ok((RumbleTestOption::DurationMs(clamp_test_duration_ms(v)), index + 2)),
            Err(e) => Err(e),
        };
    }
    if chars_eq(&a, &chars_of("--intensity")) {
        return match utility_value(args, index, "--intensity") {
            Ok(v) => Ok((RumbleTestOption::Intensity(v), index + 2)),
            Err(e) => Err(e),
        };
    }
    if chars_eq(&a, &chars_of("--low-freq")) {
        return match utility_value(args, index, "--low-freq") {
            Ok(v) => Ok((RumbleTestOption::LowFreq(v), index + 2)),
            Err(e) => Err(e),
        };
    }
    if chars_eq(&a, &chars_of("--high-freq")) {
        return match utility_value(args, index, "--high-freq") {
            Ok(v) => Ok((RumbleTestOption::HighFreq(v), index + 2)),
            Err(e) => Err(e),
        };
    }
    if chars_eq(&a, &chars_of("--help")) || chars_eq(&a, &chars_of("-h")) {
        return Ok((RumbleTestOption::Help, index + 1));
    }
    let mut m = "unknown joycon-rumble-test argument: ".to_owned();
    m.append(args[index].as_str());
    Err(m)
}

/// Reads the IMU sweep option at `index`: what it sets and where the next
/// option starts.
pub fn sweep_option(args: &Vec<String>, index: usize) -> (r: Result<(SweepOption, usize), String>)
    requires
        index < args@.len(),
        args@.len() + 2 <= usize::MAX,
    ensures
        match sweep_option_spec(args_view(args@), index as int) {
            Ok((option, next)) => r matches Ok((o, n)) && o.model() == option && n == next,
            Err(m) => r matches Err(e) && e@ == m,
        },
{
    let ghost view = args_view(args@);
    assert(view[index as int] == args@[index as int]@);
    let a = chars_of(args[index].as_str());
    if chars_eq(&a, &chars_of("--side")) {
        return match side_value(args, index) {
            Ok(side) => Ok((SweepOption::Side(side), index + 2)),
            Err(e) => Err(e),
        };
    }
    if chars_eq(&a, &chars_of("--low-start")) {
        return match utility_value(args, index, "--low-start") {
            Ok(v) => Ok((SweepOption::LowStart(v), index + 2)),
            Err(e) => Err(e),
        };
    }
    if chars_eq(&a, &chars_of("--low-end")) {
        return match utility_value(args, index, "--low-end") {
            Ok(v) => Ok((SweepOption::LowEnd(v), index + 2)),
            Err(e) => Err(e),
        };
    }
    if chars_eq(&a, &chars_of("--low-step")) {
        return match utility_value(args, index, "--low-step") {
            Ok(v) => Ok((SweepOption::LowStep(v), index + 2)),
            Err(e) => Err(e),
        };
    }
    if chars_eq(&a, &chars_of("--amplitudes")) {
        return match utility_value(args, index, "--amplitudes") {
            Ok(v) => Ok((SweepOption::Amplitudes(v), index + 2)),
            Err(e) => Err(e),
        };
    }
    if chars_eq(&a, &chars_of("--measure-ms")) {
        return match integer_value(args, index, "--measure-ms") {
            Ok(v) => Ok((SweepOption::MeasureMs(v), index + 2)),
            Err(e) => Err(e),
        };
    }
    if chars_eq(&a, &chars_of("--settle-ms")) {
        return match integer_value(args, index, "--settle-ms") {
            Ok(v) => Ok((SweepOption::SettleMs(v), index + 2)),
            Err(e) => Err(e),
        };
    }
    if chars_eq(&a, &chars_of("--output")) {
        return match utility_value(args, index, "--output") {
            Ok(v) => Ok((SweepOption::Output(v), index + 2)),
            Err(e) => Err(e),
        };
    }
    if chars_eq(&a, &chars_of("--profile")) {
        return match utility_value(args, index, "--profile") {
            Ok(v) => Ok((SweepOption::Profile(v), index + 2)),
            Err(e) => Err(e),
        };
    }
    if chars_eq(&a, &chars_of("--help")) || chars_eq(&a, &chars_of("-h")) {
        return Ok((SweepOption::Help, index + 1));
    }
    let mut m = "unknown joycon-imu-sweep argument: ".to_owned();
    m.append(args[index].as_str());
    Err(m)
}


/// Each rumble test option is read as the option of its own name: a text
/// option carries the argument that follows it, `--duration-ms` carries its
/// number held between 20 and 1000, `--side` the side its value names, a
/// help flag carries nothing, and a value option at the end reports that
/// its value is missing.
pub proof fn lemma_rumble_test_option_by_name(args: Seq<Seq<char>>, index: int)
    requires
        0 <= index < args.len(),
    ensures
        args[index] == "--side"@ && index + 1 < args.len() && joycon_side_named(args[index + 1]) is Some
            ==> rumble_test_option_spec(args, index) == Ok::<(RumbleTestModel, int), Seq<char>>((RumbleTestModel::Side(joycon_side_named(args[index + 1])->Some_0), index + 2)),
        args[index] == "--side"@ && index + 1 < args.len() && joycon_side_named(args[index + 1]) is None
            ==> rumble_test_option_spec(args, index) == Err::<(RumbleTestModel, int), Seq<char>>("--side must be left or right, got "@ + args[index + 1]),
        args[index] == "--intensity"@ && index + 1 < args.len() ==> rumble_test_option_spec(args, index) == Ok::<(RumbleTestModel, int), Seq<char>>((RumbleTestModel::Intensity(args[index + 1]), index + 2)),
        args[index] == "--low-freq"@ && index + 1 < args.len() ==> rumble_test_option_spec(args, index) == Ok::<(RumbleTestModel, int), Seq<char>>((RumbleTestModel::LowFreq(args[index + 1]), index + 2)),
        args[index] == "--high-freq"@ && index + 1 < args.len() ==> rumble_test_option_spec(args, index) == Ok::<(RumbleTestModel, int), Seq<char>>((RumbleTestModel::HighFreq(args[index + 1]), index + 2)),
        args[index] == "--duration-ms"@ && index + 1 < args.len() && parse_unsigned_spec(args[index + 1], u64::MAX as int) is Some ==> ({
            let n = parse_unsigned_spec(args[index + 1], u64::MAX as int)->Some_0;
            &&& rumble_test_option_spec(args, index) matches Ok((RumbleTestModel::DurationMs(d), next)) && next == index + 2 && 20 <= d <= 1000
            &&& rumble_test_option_spec(args, index) matches Ok((RumbleTestModel::DurationMs(d), _)) && (20 <= n <= 1000 ==> d == n) && (n < 20 ==> d == 20) && (n > 1000 ==> d == 1000)
        }),
        args[index] == "--duration-ms"@ && index + 1 < args.len() && parse_unsigned_spec(args[index + 1], u64::MAX as int) is None
            ==> rumble_test_option_spec(args, index) == Err::<(RumbleTestModel, int), Seq<char>>("--duration-ms"@ + " must be integer"@),
        args[index] == "--help"@ || args[index] == "-h"@ ==> rumble_test_option_spec(args, index) == Ok::<(RumbleTestModel, int), Seq<char>>((RumbleTestModel::Help, index + 1)),
        index + 1 >= args.len() && (args[index] == "--side"@ || args[index] == "--intensity"@ || args[index] == "--low-freq"@ || args[index] == "--high-freq"@ || args[index] == "--duration-ms"@)
            ==> rumble_test_option_spec(args, index) == Err::<(RumbleTestModel, int), Seq<char>>(args[index] + " needs a value"@),
{
    reveal_strlit("--side");
    reveal_strlit("--duration-ms");
    reveal_strlit("--intensity");
    reveal_strlit("--low-freq");
    reveal_strlit("--high-freq");
    reveal_strlit("--help");
    reveal_strlit("-h");
    reveal_strlit(" needs a value");
    assert("--side"@.len() == 6);
    assert("--duration-ms"@.len() == 13);
    assert("--intensity"@.len() == 11);
    assert("--low-freq"@.len() == 10);
    assert("--high-freq"@.len() == 11);
    assert("--help"@.len() == 6);
    assert("-h"@.len() == 2);
    assert("--high-freq"@[2] != "--intensity"@[2]);
    assert("--help"@[2] != "--side"@[2]);
    if args[index] == "--intensity"@ && index + 1 < args.len() {
        assert(utility_value_spec(args, index, "--intensity"@) == Ok::<Seq<char>, Seq<char>>(args[index + 1]));
    }
    if args[index] == "--low-freq"@ && index + 1 < args.len() {
        assert(utility_value_spec(args, index, "--low-freq"@) == Ok::<Seq<char>, Seq<char>>(args[index + 1]));
    }
    if args[index] == "--high-freq"@ && index + 1 < args.len() {
        assert(utility_value_spec(args, index, "--high-freq"@) == Ok::<Seq<char>, Seq<char>>(args[index + 1]));
    }
    if args[index] == "--duration-ms"@ && index + 1 < args.len() {
        assert(utility_value_spec(args, index, "--duration-ms"@) == Ok::<Seq<char>, Seq<char>>(args[index + 1]));
        let digits = unsigned_digits(args[index + 1]);
        if parse_unsigned_spec(args[index + 1], u64::MAX as int) is Some {
            lemma_digits_nonnegative(digits);
            let n = parse_unsigned_spec(args[index + 1], u64::MAX as int)->Some_0;
            assert(integer_value_spec(args[index + 1], "--duration-ms"@) == Ok::<u64, Seq<char>>(n as u64));
        }
    }
    if args[index] == "--side"@ && index + 1 < args.len() {
        assert(utility_value_spec(args, index, "--side"@) == Ok::<Seq<char>, Seq<char>>(args[index + 1]));
    }
}

/// Each IMU sweep option is read as the option of its own name: a text
/// option carries the argument that follows it, a time option carries its
/// number, `--side` the side its value names, a help flag carries nothing,
/// and a value option at the end reports that its value is missing.
pub proof fn lemma_sweep_option_by_name(args: Seq<Seq<char>>, index: int)
    requires
        0 <= index < args.len(),
    ensures
        args[index] == "--side"@ && index + 1 < args.len() && joycon_side_named(args[index + 1]) is Some
            ==> sweep_option_spec(args, index) == Ok::<(SweepModel, int), Seq<char>>((SweepModel::Side(joycon_side_named(args[index + 1])->Some_0), index + 2)),
        args[index] == "--side"@ && index + 1 < args.len() && joycon_side_named(args[index + 1]) is None
            ==> sweep_option_spec(args, index) == Err::<(SweepModel, int), Seq<char>>("--side must be left or right, got "@ + args[index + 1]),
        args[index] == "--low-start"@ && index + 1 < args.len() ==> sweep_option_spec(args, index) == Ok::<(SweepModel, int), Seq<char>>((SweepModel::LowStart(args[index + 1]), index + 2)),
        args[index] == "--low-end"@ && index + 1 < args.len() ==> sweep_option_spec(args, index) == Ok::<(SweepModel, int), Seq<char>>((SweepModel::LowEnd(args[index + 1]), index + 2)),
        args[index] == "--low-step"@ && index + 1 < args.len() ==> sweep_option_spec(args, index) == Ok::<(SweepModel, int), Seq<char>>((SweepModel::LowStep(args[index + 1]), index + 2)),
        args[index] == "--amplitudes"@ && index + 1 < args.len() ==> sweep_option_spec(args, index) == Ok::<(SweepModel, int), Seq<char>>((SweepModel::Amplitudes(args[index + 1]), index + 2)),
        args[index] == "--output"@ && index + 1 < args.len() ==> sweep_option_spec(args, index) == Ok::<(SweepModel, int), Seq<char>>((SweepModel::Output(args[index + 1]), index + 2)),
        args[index] == "--profile"@ && index + 1 < args.len() ==> sweep_option_spec(args, index) == Ok::<(SweepModel, int), Seq<char>>((SweepModel::Profile(args[index + 1]), index + 2)),
        args[index] == "--measure-ms"@ && index + 1 < args.len() && parse_unsigned_spec(args[index + 1], u64::MAX as int) is Some
            ==> sweep_option_spec(args, index) == Ok::<(SweepModel, int), Seq<char>>((SweepModel::MeasureMs(parse_unsigned_spec(args[index + 1], u64::MAX as int)->Some_0 as u64), index + 2)),
        args[index] == "--measure-ms"@ && index + 1 < args.len() && parse_unsigned_spec(args[index + 1], u64::MAX as int) is None
            ==> sweep_option_spec(args, index) == Err::<(SweepModel, int), Seq<char>>("--measure-ms"@ + " must be integer"@),
        args[index] == "--settle-ms"@ && index + 1 < args.len() && parse_unsigned_spec(args[index + 1], u64::MAX as int) is Some
            ==> sweep_option_spec(args, index) == Ok::<(SweepModel, int), Seq<char>>((SweepModel::SettleMs(parse_unsigned_spec(args[index + 1], u64::MAX as int)->Some_0 as u64), index + 2)),
        args[index] == "--settle-ms"@ && index + 1 < args.len() && parse_unsigned_spec(args[index + 1], u64::MAX as int) is None
            ==> sweep_option_spec(args, index) == Err::<(SweepModel, int), Seq<char>>("--settle-ms"@ + " must be integer"@),
        args[index] == "--help"@ || args[index] == "-h"@ ==> sweep_option_spec(args, index) == Ok::<(SweepModel, int), Seq<char>>((SweepModel::Help, index + 1)),
        index + 1 >= args.len() && (args[index] == "--side"@ || args[index] == "--low-start"@ || args[index] == "--low-end"@ || args[index] == "--low-step"@ || args[index] == "--amplitudes"@ || args[index] == "--output"@ || args[index] == "--profile"@ || args[index] == "--measure-ms"@ || args[index] == "--settle-ms"@)
            ==> sweep_option_spec(args, index) == Err::<(SweepModel, int), Seq<char>>(args[index] + " needs a value"@),
{
    reveal_strlit("--side");
    reveal_strlit("--low-start");
    reveal_strlit("--low-end");
    reveal_strlit("--low-step");
    reveal_strlit("--amplitudes");
    reveal_strlit("--measure-ms");
    reveal_strlit("--settle-ms");
    reveal_strlit("--output");
    reveal_strlit("--profile");
    reveal_strlit("--help");
    reveal_strlit("-h");
    reveal_strlit(" needs a value");
    assert("--side"@.len() == 6);
    assert("--low-start"@.len() == 11);
    assert("--low-end"@.len() == 9);
    assert("--low-step"@.len() == 10);
    assert("--amplitudes"@.len() == 12);
    assert("--measure-ms"@.len() == 12);
    assert("--settle-ms"@.len() == 11);
    assert("--output"@.len() == 8);
    assert("--profile"@.len() == 9);
    assert("--help"@.len() == 6);
    assert("-h"@.len() == 2);
    assert("--measure-ms"@[2] != "--amplitudes"@[2]);
    assert("--settle-ms"@[2] != "--low-start"@[2]);
    assert("--profile"@[2] != "--low-end"@[2]);
    assert("--help"@[2] != "--side"@[2]);
    if args[index] == "--low-start"@ && index + 1 < args.len() {
        assert(utility_value_spec(args, index, "--low-start"@) == Ok::<Seq<char>, Seq<char>>(args[index + 1]));
    }
    if args[index] == "--low-end"@ && index + 1 < args.len() {
        assert(utility_value_spec(args, index, "--low-end"@) == Ok::<Seq<char>, Seq<char>>(args[index + 1]));
    }
    if args[index] == "--low-step"@ && index + 1 < args.len() {
        assert(utility_value_spec(args, index, "--low-step"@) == Ok::<Seq<char>, Seq<char>>(args[index + 1]));
    }
    if args[index] == "--amplitudes"@ && index + 1 < args.len() {
        assert(utility_value_spec(args, index, "--amplitudes"@) == Ok::<Seq<char>, Seq<char>>(args[index + 1]));
    }
    if args[index] == "--output"@ && index + 1 < args.len() {
        assert(utility_value_spec(args, index, "--output"@) == Ok::<Seq<char>, Seq<char>>(args[index + 1]));
    }
    if args[index] == "--profile"@ && index + 1 < args.len() {
        assert(utility_value_spec(args, index, "--profile"@) == Ok::<Seq<char>, Seq<char>>(args[index + 1]));
    }
    if args[index] == "--measure-ms"@ && index + 1 < args.len() {
        assert(utility_value_spec(args, index, "--measure-ms"@) == Ok::<Seq<char>, Seq<char>>(args[index + 1]));
    }
    if args[index] == "--settle-ms"@ && index + 1 < args.len() {
        assert(utility_value_spec(args, index, "--settle-ms"@) == Ok::<Seq<char>, Seq<char>>(args[index + 1]));
    }
    if args[index] == "--side"@ && index + 1 < args.len() {
        assert(utility_value_spec(args, index, "--side"@) == Ok::<Seq<char>, Seq<char>>(args[index + 1]));
    }
}

} // verus!
