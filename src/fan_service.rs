//! A plain holder of fans and PWM outputs taken out of a group.

use vstd::prelude::*;
use crate::fans::Fan;
use crate::pwm::Pwm;

verus! {

pub struct FanService {
    pub fans: Vec<Fan>,
    pub pwms: Vec<Pwm>,
}

impl FanService {
    pub fn new(fans: Vec<Fan>, pwms: Vec<Pwm>) -> (r: FanService)
        ensures
            r.fans == fans,
            r.pwms == pwms,
    {
        FanService { fans, pwms }
    }
}

} // verus!
