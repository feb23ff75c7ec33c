use vstd::prelude::*;

verus! {

/// Integer hyperparameters of one training session, fixed at initialization.
///
/// `num_points` is the total sample count and is always exactly
/// `num_classes * samples_per_class`: a session refuses to initialize on a
/// total that does not divide evenly rather than silently truncating.
#[derive(Clone, Copy, Debug, PartialEq, Eq, Structural)]
pub struct MetaData {
    pub num_classes: u32,
    pub samples_per_class: u32,
    pub num_points: u32,
    pub fc_size: u32,
}

/// A configuration the session refuses to initialize with.
#[derive(Clone, Copy, Debug, PartialEq, Eq, Structural)]
pub enum ConfigError {
    /// `num_classes` was zero, so no partition of the samples exists.
    ZeroClasses,
    /// The total sample count does not divide evenly among the classes.
    NotDivisible,
}

impl MetaData {
    /// The sample count splits exactly into `num_classes` nonempty-indexable
    /// classes of `samples_per_class` samples each.
    pub open spec fn wf(self) -> bool {
        &&& self.num_classes > 0
        &&& self.num_points == self.num_classes * self.samples_per_class
    }

    /// Validates the requested shape, dividing the total sample count evenly
    /// among the classes; rejects a zero class count or a remainder.
    pub fn new(num_points: u32, num_classes: u32, fc_size: u32) -> (r: Result<MetaData, ConfigError>)
        ensures
            r is Ok <==> num_classes != 0 && num_points as int % num_classes as int == 0,
            num_classes == 0 ==> r == Result::<MetaData, ConfigError>::Err(ConfigError::ZeroClasses),
            num_classes != 0 && num_points as int % num_classes as int != 0
                ==> r == Result::<MetaData, ConfigError>::Err(ConfigError::NotDivisible),
            r matches Ok(m) ==> {
                &&& m.num_classes == num_classes
                &&& m.fc_size == fc_size
                &&& m.num_points == num_points
                &&& m.samples_per_class == num_points as int / num_classes as int
                &&& m.wf()
            },
    {
        if num_classes == 0 {
            Err(ConfigError::ZeroClasses)
        } else if num_points % num_classes != 0 {
            Err(ConfigError::NotDivisible)
        } else {
            let samples_per_class = num_points / num_classes;
            proof {
                vstd::arithmetic::div_mod::lemma_fundamental_div_mod(
                    num_points as int,
                    num_classes as int,
                );
            }
            Ok(MetaData { num_classes, samples_per_class, num_points, fc_size })
        }
    }
}

} // verus!
