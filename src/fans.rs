//! Fans: a speed input `fan<index>_input` with its optional label and rated
//! range, and the speed last sampled from it.

use vstd::prelude::*;
use crate::pwm::Pwm;
use crate::sysfs::{join, join_path};
use crate::text::{decimal, int_to_text, parse_i32, spec_int_or_zero};

verus! {

pub open spec fn fan_input_name(index: int) -> Seq<char> {
    seq!['f', 'a', 'n'] + decimal(index) + seq!['_', 'i', 'n', 'p', 'u', 't']
}

/// A speed as shown to the operator: its decimal value and ` RPM`.
pub open spec fn rpm_text(rpm: int) -> Seq<char> {
    decimal(rpm) + seq![' ', 'R', 'P', 'M']
}

/// A fan speed read from attribute text; text that is not an integer reads
/// as 0.
pub fn get_speed(reading: &str) -> (r: i32)
    ensures
        r == spec_int_or_zero(reading@),
{
    match parse_i32(reading) {
        Some(v) => v,
        None => 0,
    }
}

fn format_rpm(rpm: i32) -> (r: String)
    ensures
        r@ == rpm_text(rpm as int),
{
    let mut r = int_to_text(rpm as i64);
    r.append(" RPM");
    proof {
        reveal_strlit(" RPM");
    }
    assert(r@ =~= rpm_text(rpm as int));
    r
}

/// A fan of a sensor group. `current_speed` is the cached baseline: only
/// [`Fan::update_speed`] changes it.
pub struct Fan {
    pub file_path: String,
    pub index: i32,
    pub label: String,
    pub min_speed_rpm: i32,
    pub max_speed_rpm: i32,
    pub current_speed: i32,
    pub paired_pwm: Option<Pwm>,
}

impl Fan {
    pub open spec fn input_path(&self) -> Seq<char> {
        join_path(self.file_path@, fan_input_name(self.index as int))
    }

    /// A fan in directory `path`: index 0, empty label, no rated range, no
    /// pairing, and a cached speed of 0, since the directory itself holds no
    /// speed reading.
    pub fn new(path: String) -> (r: Fan)
        ensures
            r.file_path == path,
            r.index == 0,
            r.label@ == Seq::<char>::empty(),
            r.min_speed_rpm == 0,
            r.max_speed_rpm == 0,
            r.current_speed == 0,
            r.paired_pwm is None,
    {
        Fan {
            file_path: path,
            index: 0,
            label: String::new(),
            min_speed_rpm: 0,
            max_speed_rpm: 0,
            current_speed: 0,
            paired_pwm: None,
        }
    }

    pub fn with_label(self, s: String) -> (r: Fan)
        ensures
            r == (Fan { label: s, ..self }),
    {
        Fan { label: s, ..self }
    }

    /// Sets the index from its decimal text; text that is not an integer
    /// gives index 0.
    pub fn with_index(self, i: String) -> (r: Fan)
        ensures
            r == (Fan { index: spec_int_or_zero(i@), ..self }),
    {
        let index = get_speed(i.as_str());
        Fan { index, ..self }
    }

    pub fn with_rpm(self, min: i32, max: i32) -> (r: Fan)
        ensures
            r == (Fan { min_speed_rpm: min, max_speed_rpm: max, ..self }),
    {
        Fan { min_speed_rpm: min, max_speed_rpm: max, ..self }
    }

    pub fn with_current_speed(self, speed: i32) -> (r: Fan)
        ensures
            r == (Fan { current_speed: speed, ..self }),
    {
        Fan { current_speed: speed, ..self }
    }

    /// The path of the speed input.
    pub fn get_input_path(&self) -> (r: String)
        ensures
            r@ == self.input_path(),
    {
        let mut file = String::from_str("fan");
        proof {
            reveal_strlit("fan");
        }
        let digits = int_to_text(self.index as i64);
        file.append(digits.as_str());
        file.append("_input");
        proof {
            reveal_strlit("_input");
        }
        assert(file@ =~= fan_input_name(self.index as int));
        join(self.file_path.as_str(), file.as_str())
    }

    /// The live speed given by a reading of the speed input, as shown.
    pub fn get_formatted_speed(reading: &str) -> (r: String)
        ensures
            r@ == rpm_text(spec_int_or_zero(reading@) as int),
    {
        format_rpm(get_speed(reading))
    }

    /// The cached speed, as shown.
    pub fn get_formatted_cached_speed(&self) -> (r: String)
        ensures
            r@ == rpm_text(self.current_speed as int),
    {
        format_rpm(self.current_speed)
    }

    /// Refreshes the cached speed from a reading of the speed input.
    pub fn update_speed(&mut self, reading: &str)
        ensures
            *final(self) == (Fan { current_speed: spec_int_or_zero(reading@), ..*old(self) }),
    {
        self.current_speed = get_speed(reading);
    }
}

} // verus!
