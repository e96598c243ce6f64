//! A sensor group: one hwmon directory with its fans, temperature inputs
//! and PWM outputs, their discovery from a listing of the directory, and
//! the application of pairing decisions to its fans.

use vstd::prelude::*;
use crate::fans::Fan;
use crate::pairing::{spec_step, PairingSearch, SearchOutcome, THRESHOLD_STEP};
use crate::pwm::Pwm;
use crate::sysfs::{attribute_text, entry_text, read_attribute, AttributeWrite, FileEntry};
use crate::temp::Temp;
use crate::text::{decimal, extract_index, spec_extract_index, spec_int_or_zero};

verus! {

pub open spec fn fan_prefix() -> Seq<char> {
    seq!['f', 'a', 'n']
}

pub open spec fn temp_prefix() -> Seq<char> {
    seq!['t', 'e', 'm', 'p']
}

pub open spec fn pwm_prefix() -> Seq<char> {
    seq!['p', 'w', 'm']
}

pub open spec fn input_suffix() -> Seq<char> {
    seq!['_', 'i', 'n', 'p', 'u', 't']
}

pub open spec fn label_suffix() -> Seq<char> {
    seq!['_', 'l', 'a', 'b', 'e', 'l']
}

pub open spec fn min_suffix() -> Seq<char> {
    seq!['_', 'm', 'i', 'n']
}

pub open spec fn max_suffix() -> Seq<char> {
    seq!['_', 'm', 'a', 'x']
}

/// Positions, in order, of the first `k` entries whose names read
/// `prefix`, digits, `suffix`.
pub open spec fn matched_positions(
    entries: Seq<FileEntry>,
    prefix: Seq<char>,
    suffix: Seq<char>,
    k: int,
) -> Seq<int>
    decreases k,
{
    if k <= 0 {
        Seq::empty()
    } else {
        let prev = matched_positions(entries, prefix, suffix, k - 1);
        if spec_extract_index(entries[k - 1].name@, prefix, suffix) is Some {
            prev.push(k - 1)
        } else {
            prev
        }
    }
}

/// The channel digits of an entry that matched.
pub open spec fn entry_index(e: FileEntry, prefix: Seq<char>, suffix: Seq<char>) -> Seq<char> {
    spec_extract_index(e.name@, prefix, suffix)->0
}

/// `f` is the fan that discovery makes of the speed input at `pos`.
pub open spec fn discovered_fan(f: Fan, base: Seq<char>, entries: Seq<FileEntry>, pos: int) -> bool {
    let d = entry_index(entries[pos], fan_prefix(), input_suffix());
    &&& f.file_path@ == base
    &&& f.index == spec_int_or_zero(d)
    &&& f.label@ == attribute_text(entries, fan_prefix() + d + label_suffix())
    &&& f.min_speed_rpm == spec_int_or_zero(attribute_text(entries, fan_prefix() + d + min_suffix()))
    &&& f.max_speed_rpm == spec_int_or_zero(attribute_text(entries, fan_prefix() + d + max_suffix()))
    &&& f.current_speed == spec_int_or_zero(entry_text(entries[pos]))
    &&& f.paired_pwm is None
}

pub open spec fn discovered_temp(t: Temp, base: Seq<char>, entries: Seq<FileEntry>, pos: int) -> bool {
    let d = entry_index(entries[pos], temp_prefix(), input_suffix());
    &&& t.file_path@ == base
    &&& t.index@ == d
    &&& t.label@ == attribute_text(entries, temp_prefix() + d + label_suffix())
}

/// Control files are `pwm<digits>` exactly, so `pwm<digits>_enable` and the
/// like never match.
pub open spec fn discovered_pwm(p: Pwm, base: Seq<char>, entries: Seq<FileEntry>, pos: int) -> bool {
    &&& p.file_path@ == base
    &&& p.index@ == entry_index(entries[pos], pwm_prefix(), Seq::empty())
    &&& p.name@ == entries[pos].name@
}

pub open spec fn fans_discovered(fans: Seq<Fan>, base: Seq<char>, entries: Seq<FileEntry>) -> bool {
    let pos = matched_positions(entries, fan_prefix(), input_suffix(), entries.len() as int);
    &&& fans.len() == pos.len()
    &&& forall|i: int| 0 <= i < fans.len() ==> discovered_fan(fans[i], base, entries, pos[i])
}

pub open spec fn temps_discovered(temps: Seq<Temp>, base: Seq<char>, entries: Seq<FileEntry>) -> bool {
    let pos = matched_positions(entries, temp_prefix(), input_suffix(), entries.len() as int);
    &&& temps.len() == pos.len()
    &&& forall|i: int| 0 <= i < temps.len() ==> discovered_temp(temps[i], base, entries, pos[i])
}

pub open spec fn pwms_discovered(pwms: Seq<Pwm>, base: Seq<char>, entries: Seq<FileEntry>) -> bool {
    let pos = matched_positions(entries, pwm_prefix(), Seq::empty(), entries.len() as int);
    &&& pwms.len() == pos.len()
    &&& forall|i: int| 0 <= i < pwms.len() ==> discovered_pwm(pwms[i], base, entries, pos[i])
}

/// The cached speeds of `fans`, in order.
pub open spec fn baseline_of(fans: Seq<Fan>) -> Seq<i32> {
    fans.map_values(|f: Fan| f.current_speed)
}

fn attribute_name(prefix: &str, digits: &String, suffix: &str) -> (r: String)
    ensures
        r@ == prefix@ + digits@ + suffix@,
{
    let mut r = String::from_str(prefix);
    r.append(digits.as_str());
    r.append(suffix);
    r
}

/// One hwmon device directory and what discovery found in it.
pub struct Hwmon {
    pub path: String,
    pub name: String,
    pub fans: Vec<Fan>,
    pub temps: Vec<Temp>,
    pub pwms: Vec<Pwm>,
}

impl Hwmon {
    /// A group at `path` called `name`, with nothing discovered yet.
    pub fn new(path: String, name: String) -> (r: Hwmon)
        ensures
            r.path == path,
            r.name == name,
            r.fans@.len() == 0,
            r.temps@.len() == 0,
            r.pwms@.len() == 0,
    {
        Hwmon { path, name, fans: Vec::new(), temps: Vec::new(), pwms: Vec::new() }
    }

    pub fn path(&self) -> (r: &str)
        ensures
            r@ == self.path@,
    {
        self.path.as_str()
    }

    /// The group as listed to the operator: its name, a space, its path.
    pub fn describe(&self) -> (r: String)
        ensures
            r@ == self.name@ + " "@ + self.path@,
    {
        let mut r = self.name.clone();
        r.append(" ");
        r.append(self.path.as_str());
        r
    }

    /// The writes that set every PWM output to `pwm_value`, in order; none
    /// for a value above the maximum.
    pub fn set_all_pwm(&self, pwm_value: i32) -> (r: Vec<AttributeWrite>)
        ensures
            pwm_value > 255 ==> r@.len() == 0,
            pwm_value <= 255 ==> r@.len() == self.pwms@.len(),
            forall|i: int|
                0 <= i < r@.len() ==> r@[i].path@ == self.pwms@[i].input_path() && r@[i].value@
                    == decimal(pwm_value as int),
    {
        let mut r: Vec<AttributeWrite> = Vec::new();
        let n = self.pwms.len();
        let mut i: usize = 0;
        while i < n
            invariant
                n == self.pwms@.len(),
                i <= n,
                pwm_value > 255 ==> r@.len() == 0,
                pwm_value <= 255 ==> r@.len() == i,
                forall|j: int|
                    0 <= j < r@.len() ==> r@[j].path@ == self.pwms@[j].input_path() && r@[j].value@
                        == decimal(pwm_value as int),
            decreases n - i,
        {
            match self.pwms[i].write_speed(pwm_value) {
                Some(w) => r.push(w),
                None => {},
            }
            i = i + 1;
        }
        r
    }

    /// Discovers everything in the group from a listing of its directory.
    pub fn initialize(&mut self, entries: &Vec<FileEntry>)
        ensures
            final(self).path == old(self).path,
            final(self).name == old(self).name,
            fans_discovered(final(self).fans@, old(self).path@, entries@),
            pwms_discovered(final(self).pwms@, old(self).path@, entries@),
            temps_discovered(final(self).temps@, old(self).path@, entries@),
    {
        self.initialize_fans(entries);
        self.initialize_pwms(entries);
        self.initialize_temps(entries);
    }

    /// Replaces the fans with one per `fan<N>_input` file of the listing, in
    /// listing order, reading `fan<N>_label`, `fan<N>_min` and `fan<N>_max`
    /// where present; a missing or unreadable one gives an empty label or 0.
    pub fn initialize_fans(&mut self, entries: &Vec<FileEntry>)
        ensures
            final(self).path == old(self).path,
            final(self).name == old(self).name,
            final(self).temps == old(self).temps,
            final(self).pwms == old(self).pwms,
            fans_discovered(final(self).fans@, old(self).path@, entries@),
    {
        proof {
            reveal_strlit("fan");
            reveal_strlit("_input");
            reveal_strlit("_label");
            reveal_strlit("_min");
            reveal_strlit("_max");
        }
        let ghost base = self.path@;
        let ghost es = entries@;
        let n = entries.len();
        let mut list: Vec<Fan> = Vec::new();
        let mut i: usize = 0;
        while i < n
            invariant
                n == es.len(),
                es == entries@,
                base == self.path@,
                i <= n,
                "fan"@ == fan_prefix(),
                "_input"@ == input_suffix(),
                "_label"@ == label_suffix(),
                "_min"@ == min_suffix(),
                "_max"@ == max_suffix(),
                list@.len() == matched_positions(es, fan_prefix(), input_suffix(), i as int).len(),
                forall|j: int|
                    0 <= j < list@.len() ==> discovered_fan(
                        #[trigger] list@[j],
                        base,
                        es,
                        matched_positions(es, fan_prefix(), input_suffix(), i as int)[j],
                    ),
            decreases n - i,
        {
            let entry = &entries[i];
            match extract_index(entry.name.as_str(), "fan", "_input") {
                Some(index) => {
                    let speed_text = match &entry.content {
                        Some(c) => c.clone(),
                        None => String::new(),
                    };
                    let label = read_attribute(entries, &attribute_name("fan", &index, "_label"));
                    let max = read_attribute(entries, &attribute_name("fan", &index, "_max"));
                    let min = read_attribute(entries, &attribute_name("fan", &index, "_min"));
                    let fan = Fan::new(self.path.clone()).with_current_speed(
                        crate::fans::get_speed(speed_text.as_str()),
                    ).with_index(index).with_label(label).with_rpm(
                        crate::fans::get_speed(min.as_str()),
                        crate::fans::get_speed(max.as_str()),
                    );
                    list.push(fan);
                },
                None => {},
            }
            i = i + 1;
        }
        self.fans = list;
    }

    /// Replaces the temperature inputs with one per `temp<N>_input` file of
    /// the listing, labelled by `temp<N>_label` where readable.
    pub fn initialize_temps(&mut self, entries: &Vec<FileEntry>)
        ensures
            final(self).path == old(self).path,
            final(self).name == old(self).name,
            final(self).fans == old(self).fans,
            final(self).pwms == old(self).pwms,
            temps_discovered(final(self).temps@, old(self).path@, entries@),
    {
        proof {
            reveal_strlit("temp");
            reveal_strlit("_input");
            reveal_strlit("_label");
        }
        let ghost base = self.path@;
        let ghost es = entries@;
        let n = entries.len();
        let mut list: Vec<Temp> = Vec::new();
        let mut i: usize = 0;
        while i < n
            invariant
                n == es.len(),
                es == entries@,
                base == self.path@,
                i <= n,
                "temp"@ == temp_prefix(),
                "_input"@ == input_suffix(),
                "_label"@ == label_suffix(),
                list@.len() == matched_positions(es, temp_prefix(), input_suffix(), i as int).len(),
                forall|j: int|
                    0 <= j < list@.len() ==> discovered_temp(
                        #[trigger] list@[j],
                        base,
                        es,
                        matched_positions(es, temp_prefix(), input_suffix(), i as int)[j],
                    ),
            decreases n - i,
        {
            let entry = &entries[i];
            match extract_index(entry.name.as_str(), "temp", "_input") {
                Some(index) => {
                    let label = read_attribute(entries, &attribute_name("temp", &index, "_label"));
                    list.push(Temp::new(self.path.clone()).with_index(index).with_label(label));
                },
                None => {},
            }
            i = i + 1;
        }
        self.temps = list;
    }

    /// Replaces the PWM outputs with one per `pwm<N>` file of the listing,
    /// named after the file.
    pub fn initialize_pwms(&mut self, entries: &Vec<FileEntry>)
        ensures
            final(self).path == old(self).path,
            final(self).name == old(self).name,
            final(self).fans == old(self).fans,
            final(self).temps == old(self).temps,
            pwms_discovered(final(self).pwms@, old(self).path@, entries@),
    {
        proof {
            reveal_strlit("pwm");
            reveal_strlit("");
        }
        let ghost base = self.path@;
        let ghost es = entries@;
        let n = entries.len();
        let mut list: Vec<Pwm> = Vec::new();
        let mut i: usize = 0;
        while i < n
            invariant
                n == es.len(),
                es == entries@,
                base == self.path@,
                i <= n,
                "pwm"@ == pwm_prefix(),
                ""@ == Seq::<char>::empty(),
                list@.len() == matched_positions(es, pwm_prefix(), Seq::empty(), i as int).len(),
                forall|j: int|
                    0 <= j < list@.len() ==> discovered_pwm(
                        #[trigger] list@[j],
                        base,
                        es,
                        matched_positions(es, pwm_prefix(), Seq::empty(), i as int)[j],
                    ),
            decreases n - i,
        {
            let entry = &entries[i];
            match extract_index(entry.name.as_str(), "pwm", "") {
                Some(index) => {
                    list.push(
                        Pwm::new(self.path.clone()).with_index(index).with_name(entry.name.clone()),
                    );
                },
                None => {},
            }
            i = i + 1;
        }
        self.pwms = list;
    }

    /// Baseline capture: refreshes each fan's cached speed from a reading of
    /// its speed input, `readings[i]` for fan `i`.
    pub fn update_fan_speeds(&mut self, readings: &Vec<String>)
        requires
            readings@.len() == old(self).fans@.len(),
        ensures
            final(self).path == old(self).path,
            final(self).name == old(self).name,
            final(self).temps == old(self).temps,
            final(self).pwms == old(self).pwms,
            final(self).fans@.len() == old(self).fans@.len(),
            forall|i: int|
                0 <= i < final(self).fans@.len() ==> #[trigger] final(self).fans@[i] == (Fan {
                    current_speed: spec_int_or_zero(readings@[i]@),
                    ..old(self).fans@[i]
                }),
    {
        let n = self.fans.len();
        let mut i: usize = 0;
        while i < n
            invariant
                n == self.fans@.len(),
                n == old(self).fans@.len(),
                readings@.len() == n,
                i <= n,
                self.path == old(self).path,
                self.name == old(self).name,
                self.temps == old(self).temps,
                self.pwms == old(self).pwms,
                forall|j: int|
                    0 <= j < i ==> #[trigger] self.fans@[j] == (Fan {
                        current_speed: spec_int_or_zero(readings@[j]@),
                        ..old(self).fans@[j]
                    }),
                forall|j: int| i <= j < n ==> #[trigger] self.fans@[j] == old(self).fans@[j],
            decreases n - i,
        {
            self.fans[i].update_speed(readings[i].as_str());
            i = i + 1;
        }
    }

    /// The cached speed of each fan, in order.
    pub fn baseline_speeds(&self) -> (r: Vec<i32>)
        ensures
            r@ == baseline_of(self.fans@),
    {
        let mut r: Vec<i32> = Vec::new();
        let n = self.fans.len();
        let mut i: usize = 0;
        while i < n
            invariant
                n == self.fans@.len(),
                i <= n,
                r@ == baseline_of(self.fans@.subrange(0, i as int)),
            decreases n - i,
        {
            r.push(self.fans[i].current_speed);
            i = i + 1;
            assert(baseline_of(self.fans@.subrange(0, i as int)) =~= baseline_of(
                self.fans@.subrange(0, i - 1),
            ).push(self.fans@[i - 1].current_speed));
        }
        assert(self.fans@.subrange(0, n as int) =~= self.fans@);
        r
    }

    /// Records PWM output `pwm` as fan `fan`'s pairing, replacing any earlier
    /// one.
    pub fn pair_fan(&mut self, fan: usize, pwm: usize)
        requires
            fan < old(self).fans@.len(),
            pwm < old(self).pwms@.len(),
        ensures
            final(self).path == old(self).path,
            final(self).name == old(self).name,
            final(self).temps == old(self).temps,
            final(self).pwms == old(self).pwms,
            final(self).fans@ == old(self).fans@.update(
                fan as int,
                Fan { paired_pwm: Some(old(self).pwms@[pwm as int]), ..old(self).fans@[fan as int] },
            ),
    {
        let p = self.pwms[pwm].duplicate();
        self.fans[fan].paired_pwm = Some(p);
    }

    /// One step of the search for the fan that PWM output `pwm` drives:
    /// `live[i]` is fan `i`'s speed now, compared with its cached speed. A
    /// unique responder is paired with the output; nothing else changes.
    pub fn pair_step(&mut self, pwm: usize, search: &mut PairingSearch, live: &Vec<i32>) -> (r:
        SearchOutcome)
        requires
            pwm < old(self).pwms@.len(),
            old(search).wf(),
            live@.len() == old(self).fans@.len(),
        ensures
            r == spec_step(baseline_of(old(self).fans@), live@, old(search).threshold as int),
            final(search).wf(),
            r is Continue ==> final(search).threshold == old(search).threshold + THRESHOLD_STEP,
            !(r is Continue) ==> final(search).threshold == old(search).threshold,
            final(self).path == old(self).path,
            final(self).name == old(self).name,
            final(self).temps == old(self).temps,
            final(self).pwms == old(self).pwms,
            r matches SearchOutcome::Matched(i) ==> i < old(self).fans@.len()
                && final(self).fans@ == old(self).fans@.update(
                i as int,
                Fan { paired_pwm: Some(old(self).pwms@[pwm as int]), ..old(self).fans@[i as int] },
            ),
            !(r is Matched) ==> final(self).fans == old(self).fans,
    {
        let baseline = self.baseline_speeds();
        let r = search.step(&baseline, live);
        match r {
            SearchOutcome::Matched(i) => {
                self.pair_fan(i, pwm);
            },
            _ => {},
        }
        r
    }

    /// Manual pairing: pairs PWM output `pwm` with the first fan on channel
    /// `channel`. Returns whether there is such a fan.
    pub fn pair_channel(&mut self, channel: usize, pwm: usize) -> (r: bool)
        requires
            pwm < old(self).pwms@.len(),
        ensures
            r == exists|i: int| 0 <= i < old(self).fans@.len() && old(self).fans@[i].index == channel,
            final(self).path == old(self).path,
            final(self).name == old(self).name,
            final(self).temps == old(self).temps,
            final(self).pwms == old(self).pwms,
            !r ==> final(self).fans == old(self).fans,
            r ==> exists|i: int|
                0 <= i < old(self).fans@.len() && old(self).fans@[i].index == channel && (forall|
                    j: int,
                | 0 <= j < i ==> old(self).fans@[j].index != channel) && final(self).fans@
                    == old(self).fans@.update(
                    i,
                    Fan { paired_pwm: Some(old(self).pwms@[pwm as int]), ..old(self).fans@[i] },
                ),
    {
        let n = self.fans.len();
        let mut i: usize = 0;
        while i < n
            invariant
                n == self.fans@.len(),
                self.fans == old(self).fans,
                self.pwms == old(self).pwms,
                self.temps == old(self).temps,
                self.path == old(self).path,
                self.name == old(self).name,
                pwm < self.pwms@.len(),
                i <= n,
                forall|j: int| 0 <= j < i ==> old(self).fans@[j].index != channel,
            decreases n - i,
        {
            if self.fans[i].index >= 0 && self.fans[i].index as usize == channel {
                self.pair_fan(i, pwm);
                return true;
            }
            i = i + 1;
        }
        false
    }
}

} // verus!
