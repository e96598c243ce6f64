//! PWM outputs: control files that set a fan's duty in 0..=255.

use vstd::prelude::*;
use crate::sysfs::{join, join_path, AttributeWrite};
use crate::text::{decimal, int_to_text};

verus! {

/// Largest duty value a PWM control file takes.
pub const PWM_MAX: i32 = 255;

/// A PWM output of a sensor group. It caches nothing: every read and write
/// goes to its control file `pwm<index>` in `file_path`.
pub struct Pwm {
    pub file_path: String,
    pub index: String,
    pub name: String,
}

pub open spec fn pwm_file_name(index: Seq<char>) -> Seq<char> {
    seq!['p', 'w', 'm'] + index
}

impl Pwm {
    pub open spec fn input_path(&self) -> Seq<char> {
        join_path(self.file_path@, pwm_file_name(self.index@))
    }

    /// A PWM output in directory `path`, with empty index and name.
    pub fn new(path: String) -> (r: Pwm)
        ensures
            r.file_path == path,
            r.index@ == Seq::<char>::empty(),
            r.name@ == Seq::<char>::empty(),
    {
        Pwm { file_path: path, index: String::new(), name: String::new() }
    }

    pub fn with_index(self, index: String) -> (r: Pwm)
        ensures
            r == (Pwm { index, ..self }),
    {
        Pwm { index, ..self }
    }

    pub fn with_name(self, name: String) -> (r: Pwm)
        ensures
            r == (Pwm { name, ..self }),
    {
        Pwm { name, ..self }
    }

    /// An equal copy, for a fan to keep as its pairing.
    pub fn duplicate(&self) -> (r: Pwm)
        ensures
            r == *self,
    {
        Pwm { file_path: self.file_path.clone(), index: self.index.clone(), name: self.name.clone() }
    }

    /// The path of the control file.
    pub fn get_input_path(&self) -> (r: String)
        ensures
            r@ == self.input_path(),
    {
        let mut file = String::from_str("pwm");
        proof {
            reveal_strlit("pwm");
        }
        file.append(self.index.as_str());
        assert(file@ =~= pwm_file_name(self.index@));
        join(self.file_path.as_str(), file.as_str())
    }

    /// The write that sets this output to `new_speed`: none for a value
    /// above the maximum, which is ignored rather than clamped; otherwise its
    /// decimal text to the control file.
    pub fn write_speed(&self, new_speed: i32) -> (r: Option<AttributeWrite>)
        ensures
            new_speed > PWM_MAX <==> r is None,
            r matches Some(w) ==> w.path@ == self.input_path() && w.value@ == decimal(
                new_speed as int,
            ),
    {
        if new_speed > PWM_MAX {
            return None;
        }
        Some(AttributeWrite { path: self.get_input_path(), value: int_to_text(new_speed as i64) })
    }
}

} // verus!
