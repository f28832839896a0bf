//! The fan controller: which handles it holds, how it takes the mean of a
//! round of sensor reads, and when it switches the fan.

use crate::error::FanError;
use crate::mean::{
    fails_first_at, lemma_first_failure_unique, lemma_total_bounded, mean_of,
    total_millidegrees, MeanTemperature,
};
use crate::reading::{read_temperature, SensorRead};
use vstd::prelude::*;

verus! {

/// The byte that switches the fan on: ASCII `'1'`.
pub const FAN_ON: u8 = 0x31;

/// The byte that switches the fan off: ASCII `'0'`.
pub const FAN_OFF: u8 = 0x30;

/// Whether the fan runs.
#[derive(Debug, Clone, Copy, PartialEq, Eq)]
pub enum ActuatorState {
    On,
    Off,
}

impl ActuatorState {
    /// The byte that puts the fan into this state.
    pub open spec fn command(self) -> u8 {
        match self {
            ActuatorState::On => FAN_ON,
            ActuatorState::Off => FAN_OFF,
        }
    }
}

/// The state of a fan that has received the bytes `written`, the oldest first.
///
/// Only the last byte counts. Before the first write, and after a byte that is
/// no command, the state is not known.
pub open spec fn state_after(written: Seq<u8>) -> Option<ActuatorState> {
    if written.len() > 0 && written.last() == FAN_ON {
        Some(ActuatorState::On)
    } else if written.len() > 0 && written.last() == FAN_OFF {
        Some(ActuatorState::Off)
    } else {
        None
    }
}

/// The hysteresis rule: above `high_temp` the fan goes on, below `low_temp` it
/// goes off, and from `low_temp` to `high_temp`, both included, nothing is
/// written. Where both comparisons hold, on wins.
pub open spec fn hysteresis(mean: MeanTemperature, high_temp: int, low_temp: int) -> Option<
    ActuatorState,
> {
    if mean.above(high_temp) {
        Some(ActuatorState::On)
    } else if mean.below(low_temp) {
        Some(ActuatorState::Off)
    } else {
        None
    }
}

/// What one cycle comes to: the byte to write to the fan, if any, or the error
/// that ended the cycle.
pub open spec fn cycle(reads: Seq<SensorRead>, high_temp: int, low_temp: int) -> Result<
    Option<u8>,
    FanError,
> {
    match mean_of(reads) {
        Err(e) => Err(e),
        Ok(mean) => Ok(
            match hysteresis(mean, high_temp, low_temp) {
                Some(state) => Some(state.command()),
                None => None,
            },
        ),
    }
}

/// What a controller is: its handles and its thresholds, in milli-degrees.
pub struct FanControllerView<H> {
    pub fan: H,
    pub sensors: Seq<H>,
    pub high_temp: int,
    pub low_temp: int,
}

/// A controller of one fan by the mean of some temperature sensors.
///
/// `H` is whatever the host reads and writes through. The controller keeps the
/// handles and never touches them.
#[derive(Debug)]
pub struct FanController<H> {
    fan: H,
    temperatures: Vec<H>,
    high_temp: i64,
    low_temp: i64,
}

impl<H> View for FanController<H> {
    type V = FanControllerView<H>;

    closed spec fn view(&self) -> FanControllerView<H> {
        FanControllerView {
            fan: self.fan,
            sensors: self.temperatures@,
            high_temp: self.high_temp as int,
            low_temp: self.low_temp as int,
        }
    }
}

impl<H> FanController<H> {
    /// Makes a controller from the thresholds, in milli-degrees Celsius, and
    /// from what opening the fan and each sensor gave: the handle, or `None`
    /// where it could not be opened.
    ///
    /// All or nothing: one handle that is missing is an I/O error. Otherwise
    /// the controller holds the fan and the sensors in the order given. The
    /// thresholds are kept as they are; that `high_temp` lies above `low_temp`
    /// is for the caller to see to.
    pub fn new(
        high_temp: i64,
        low_temp: i64,
        fan: Option<H>,
        temperatures: Vec<Option<H>>,
    ) -> (result: Result<Self, FanError>)
        ensures
            match result {
                Ok(controller) => {
                    &&& fan == Some(controller@.fan)
                    &&& controller@.sensors.len() == temperatures@.len()
                    &&& forall|i: int|
                        #![trigger temperatures@[i]]
                        #![trigger controller@.sensors[i]]
                        0 <= i < temperatures@.len() ==> temperatures@[i] == Some(
                            controller@.sensors[i],
                        )
                    &&& controller@.high_temp == high_temp
                    &&& controller@.low_temp == low_temp
                },
                Err(e) => {
                    &&& e == FanError::Io
                    &&& (fan is None || exists|i: int|
                        0 <= i < temperatures@.len() && temperatures@[i] is None)
                },
            },
    {
        let fan_handle = match fan {
            Some(handle) => handle,
            None => {
                return Err(FanError::Io);
            },
        };
        let ghost opened = temperatures@;
        let mut sensors: Vec<H> = Vec::new();
        for outcome in it: temperatures
            invariant
                it.seq() == opened,
                sensors@.len() == it.index(),
                forall|j: int| 0 <= j < it.index() ==> opened[j] == Some(#[trigger] sensors@[j]),
        {
            match outcome {
                Some(handle) => {
                    sensors.push(handle);
                },
                None => {
                    return Err(FanError::Io);
                },
            }
        }
        Ok(FanController { fan: fan_handle, temperatures: sensors, high_temp, low_temp })
    }

    /// The handle of the fan.
    pub fn fan(&self) -> (handle: &H)
        ensures
            *handle == self@.fan,
    {
        &self.fan
    }

    /// The handles of the sensors, in the order in which they were given.
    pub fn sensors(&self) -> (handles: &Vec<H>)
        ensures
            handles@ == self@.sensors,
    {
        &self.temperatures
    }

    /// The thresholds in milli-degrees Celsius, the high one first.
    pub fn thresholds(&self) -> (pair: (i64, i64))
        ensures
            pair.0 == self@.high_temp,
            pair.1 == self@.low_temp,
    {
        (self.high_temp, self.low_temp)
    }

    /// The mean of one round of reads, one read for each sensor, in the order
    /// of the sensors.
    ///
    /// The first read that failed or whose content is no temperature ends the
    /// call with its error. A controller without sensors has no mean: that is
    /// an error of its own.
    pub fn get_mean_cpu_temp(&self, reads: &Vec<SensorRead>) -> (result: Result<
        MeanTemperature,
        FanError,
    >)
        requires
            reads@.len() == self@.sensors.len(),
        ensures
            result == mean_of(reads@),
            result is Ok ==> result->Ok_0.wf(),
            self@.sensors.len() == 0 ==> result == Err::<MeanTemperature, FanError>(
                FanError::EmptyInput,
            ),
    {
        let n: usize = reads.len();
        let mut total: u128 = 0;
        let mut i: usize = 0;
        while i < n
            invariant
                i <= n,
                n == reads@.len(),
                n == self@.sensors.len(),
                total == total_millidegrees(reads@.take(i as int)),
                forall|j: int| 0 <= j < i ==> (#[trigger] reads@[j]).reading() is Ok,
            decreases n - i,
        {
            proof {
                lemma_total_bounded(reads@.take(i as int));
                assert(i * u32::MAX + u32::MAX <= u128::MAX) by (nonlinear_arith)
                    requires
                        i <= usize::MAX,
                ;
                assert(reads@.take(i + 1).drop_last() =~= reads@.take(i as int));
            }
            match read_temperature(&reads[i]) {
                Ok(v) => {
                    total = total + v as u128;
                },
                Err(e) => {
                    proof {
                        assert(fails_first_at(reads@, i as int));
                        let k = choose|k: int| fails_first_at(reads@, k);
                        lemma_first_failure_unique(reads@, i as int, k);
                    }
                    return Err(e);
                },
            }
            i = i + 1;
        }
        proof {
            assert(reads@.take(n as int) =~= reads@);
            lemma_total_bounded(reads@);
            assert forall|k: int| !fails_first_at(reads@, k) by {
                if 0 <= k < n {
                    assert(reads@[k].reading() is Ok);
                }
            }
        }
        if n == 0 {
            return Err(FanError::EmptyInput);
        }
        Ok(MeanTemperature { total, count: n })
    }

    /// The byte to write to the fan to switch it off. One call stands for one
    /// write of this one byte.
    pub fn set_fan_off(&self) -> (byte: u8)
        ensures
            byte == ActuatorState::Off.command(),
    {
        FAN_OFF
    }

    /// The byte to write to the fan to switch it on. One call stands for one
    /// write of this one byte.
    pub fn set_fan_on(&self) -> (byte: u8)
        ensures
            byte == ActuatorState::On.command(),
    {
        FAN_ON
    }

    /// What the hysteresis rule asks for at the mean `mean`: the state to put
    /// the fan into, or `None` where nothing is to be written.
    pub fn decide(&self, mean: &MeanTemperature) -> (action: Option<ActuatorState>)
        ensures
            action == hysteresis(*mean, self@.high_temp, self@.low_temp),
    {
        if mean.is_above(self.high_temp) {
            Some(ActuatorState::On)
        } else if mean.is_below(self.low_temp) {
            Some(ActuatorState::Off)
        } else {
            None
        }
    }

    /// One cycle: takes the mean of a round of reads and answers with the byte
    /// to write to the fan, or with `None` where the mean lies between the
    /// thresholds and the fan is left as it is.
    ///
    /// Nothing is remembered from one cycle to the next: the same reads give
    /// the same answer, whatever was written before.
    pub fn run_loop_once(&self, reads: &Vec<SensorRead>) -> (result: Result<Option<u8>, FanError>)
        requires
            reads@.len() == self@.sensors.len(),
        ensures
            result == cycle(reads@, self@.high_temp, self@.low_temp),
    {
        let cpu_temp = match self.get_mean_cpu_temp(reads) {
            Ok(mean) => mean,
            Err(e) => {
                return Err(e);
            },
        };
        match self.decide(&cpu_temp) {
            Some(ActuatorState::On) => Ok(Some(self.set_fan_on())),
            Some(ActuatorState::Off) => Ok(Some(self.set_fan_off())),
            None => Ok(None),
        }
    }
}

/// No oscillation: whenever the mean of a round lies from `low_temp` to
/// `high_temp`, both included, the cycle writes nothing.
pub proof fn lemma_no_actuation_in_band(reads: Seq<SensorRead>, high_temp: int, low_temp: int)
    requires
        mean_of(reads) is Ok,
        !mean_of(reads)->Ok_0.below(low_temp),
        !mean_of(reads)->Ok_0.above(high_temp),
    ensures
        cycle(reads, high_temp, low_temp) == Ok::<Option<u8>, FanError>(None),
{
}

/// With thresholds the right way round the two commands never compete: no
/// mean lies above `high_temp` and below `low_temp` at once.
pub proof fn lemma_commands_exclusive(mean: MeanTemperature, high_temp: int, low_temp: int)
    requires
        mean.count > 0,
        low_temp <= high_temp,
    ensures
        !(mean.above(high_temp) && mean.below(low_temp)),
{
    assert(low_temp * mean.count <= high_temp * mean.count) by (nonlinear_arith)
        requires
            mean.count > 0,
            low_temp <= high_temp,
    ;
}

/// A cycle writes at most one byte, and only outside the band: `'1'` exactly
/// where the mean lies above `high_temp`, `'0'` exactly where it does not and
/// lies below `low_temp`.
pub proof fn lemma_actuation_outside_band(reads: Seq<SensorRead>, high_temp: int, low_temp: int)
    requires
        mean_of(reads) is Ok,
    ensures
        cycle(reads, high_temp, low_temp) == Ok::<Option<u8>, FanError>(Some(FAN_ON))
            <==> mean_of(reads)->Ok_0.above(high_temp),
        cycle(reads, high_temp, low_temp) == Ok::<Option<u8>, FanError>(Some(FAN_OFF))
            <==> !mean_of(reads)->Ok_0.above(high_temp) && mean_of(reads)->Ok_0.below(low_temp),
{
}

/// Writing a command twice in a row leaves the fan where writing it once
/// does: in the state that the command names.
pub proof fn lemma_command_idempotent(written: Seq<u8>, state: ActuatorState)
    ensures
        state_after(written.push(state.command())) == Some(state),
        state_after(written.push(state.command()).push(state.command())) == state_after(
            written.push(state.command()),
        ),
{
}

} // verus!
