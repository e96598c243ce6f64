//! Temperature inputs `temp<index>_input`, read in millidegrees Celsius.

use vstd::prelude::*;
use crate::sysfs::{join, join_path};
use crate::text::{digit_char, digit_text, nat_decimal, nat_to_text, parse_i32, spec_int_or_zero};

verus! {

pub open spec fn temp_input_name(index: Seq<char>) -> Seq<char> {
    seq!['t', 'e', 'm', 'p'] + index + seq!['_', 'i', 'n', 'p', 'u', 't']
}

/// Millidegrees shown as degrees Celsius with one decimal, cut toward zero.
pub open spec fn celsius_text(milli: int) -> Seq<char> {
    let a: nat = if milli < 0 {
        (-milli) as nat
    } else {
        milli as nat
    };
    (if milli < 0 {
        seq!['-']
    } else {
        Seq::<char>::empty()
    }) + nat_decimal(a / 1000) + seq!['.', digit_char(((a % 1000) / 100) as int)] + seq![
        ' ',
        '\u{b0}',
        'C',
    ]
}

/// A temperature input of a sensor group.
pub struct Temp {
    pub file_path: String,
    pub index: String,
    pub label: String,
}

impl Temp {
    pub open spec fn input_path(&self) -> Seq<char> {
        join_path(self.file_path@, temp_input_name(self.index@))
    }

    pub fn new(path: String) -> (r: Temp)
        ensures
            r.file_path == path,
            r.index@ == Seq::<char>::empty(),
            r.label@ == Seq::<char>::empty(),
    {
        Temp { file_path: path, index: String::new(), label: String::new() }
    }

    pub fn with_label(self, label: String) -> (r: Temp)
        ensures
            r == (Temp { label, ..self }),
    {
        Temp { label, ..self }
    }

    pub fn with_index(self, index: String) -> (r: Temp)
        ensures
            r == (Temp { index, ..self }),
    {
        Temp { index, ..self }
    }

    /// The path of the temperature input.
    pub fn get_input_path(&self) -> (r: String)
        ensures
            r@ == self.input_path(),
    {
        let mut file = String::from_str("temp");
        proof {
            reveal_strlit("temp");
        }
        file.append(self.index.as_str());
        file.append("_input");
        proof {
            reveal_strlit("_input");
        }
        assert(file@ =~= temp_input_name(self.index@));
        join(self.file_path.as_str(), file.as_str())
    }

    /// The temperature given by a reading of the input, as shown; text that
    /// is not an integer reads as 0.
    pub fn get_temp(reading: &str) -> (r: String)
        ensures
            r@ == celsius_text(spec_int_or_zero(reading@) as int),
    {
        let milli: i64 = match parse_i32(reading) {
            Some(v) => v as i64,
            None => 0,
        };
        let a: u64 = if milli < 0 {
            (-milli) as u64
        } else {
            milli as u64
        };
        let mut r = if milli < 0 {
            proof {
                reveal_strlit("-");
            }
            String::from_str("-")
        } else {
            String::new()
        };
        let whole = nat_to_text(a / 1000);
        r.append(whole.as_str());
        r.append(".");
        proof {
            reveal_strlit(".");
        }
        r.append(digit_text((a % 1000) / 100));
        r.append(" \u{b0}C");
        proof {
            reveal_strlit(" \u{b0}C");
        }
        assert(r@ =~= celsius_text(spec_int_or_zero(reading@) as int));
        r
    }
}

} // verus!
