//! The parameters of a normal distribution of amounts.
use crate::fixed::{Money, TENTH};
use crate::random::random_in_range;
use vstd::prelude::*;

verus! {

/// A normal distribution, named and tied to the product it describes. Its
/// mean and standard deviation are amounts in millionths.
#[derive(Clone, Debug)]
pub struct NormalDistribution {
    mean: Money,
    id: u64,
    name: String,
    std_dev: Money,
}

/// The largest standard deviation that [`NormalDistribution::random`] draws:
/// ten units.
pub const MAX_RANDOM_STD_DEV: u64 = 10_000_000;

impl NormalDistribution {
    /// The mean, as a specification value.
    pub closed spec fn spec_mean(&self) -> Money {
        self.mean
    }

    /// The product id, as a specification value.
    pub closed spec fn spec_id(&self) -> u64 {
        self.id
    }

    /// The name, as a specification value.
    pub closed spec fn spec_name(&self) -> Seq<char> {
        self.name@
    }

    /// The standard deviation, as a specification value.
    pub closed spec fn spec_std_dev(&self) -> Money {
        self.std_dev
    }

    /// A distribution with the given parameters.
    pub fn new(mean: Money, id: u64, name: String, std_dev: Money) -> (d: Self)
        ensures
            d.spec_mean() == mean,
            d.spec_id() == id,
            d.spec_name() == name@,
            d.spec_std_dev() == std_dev,
    {
        NormalDistribution { mean, id, name, std_dev }
    }

    /// The mean.
    #[verifier::when_used_as_spec(spec_mean)]
    pub fn mean(&self) -> (m: Money)
        ensures
            m == self.spec_mean(),
    {
        self.mean
    }

    /// The id of the product that the distribution describes.
    #[verifier::when_used_as_spec(spec_id)]
    pub fn id(&self) -> (i: u64)
        ensures
            i == self.spec_id(),
    {
        self.id
    }

    /// The name.
    pub fn name(&self) -> (n: &str)
        ensures
            n@ == self.spec_name(),
    {
        self.name.as_str()
    }

    /// The standard deviation.
    #[verifier::when_used_as_spec(spec_std_dev)]
    pub fn std_dev(&self) -> (s: Money)
        ensures
            s == self.spec_std_dev(),
    {
        self.std_dev
    }

    /// The lower end of the means that `random` draws: `lower`, or zero.
    pub open spec fn mean_floor(lower: Option<Money>) -> Money {
        match lower {
            Some(l) => l,
            None => 0,
        }
    }

    /// The upper end of the means that `random` draws: `upper`, or the
    /// largest amount.
    pub open spec fn mean_ceiling(upper: Option<Money>) -> Money {
        match upper {
            Some(u) => u,
            None => u64::MAX,
        }
    }

    /// The upper end of the standard deviations that `random` draws: the
    /// ceiling of the means, or ten units where that is less.
    pub open spec fn std_dev_ceiling(upper: Option<Money>) -> Money {
        if Self::mean_ceiling(upper) <= MAX_RANDOM_STD_DEV {
            Self::mean_ceiling(upper)
        } else {
            MAX_RANDOM_STD_DEV
        }
    }

    /// A distribution with random parameters: the mean is drawn from
    /// `lower..upper`, the standard deviation from a tenth of a unit up to
    /// the smaller of `upper` and ten units. Both ranges must hold a value.
    pub fn random(id: u64, name: String, lower: Option<Money>, upper: Option<Money>) -> (d: Self)
        requires
            Self::mean_floor(lower) < Self::mean_ceiling(upper),
            TENTH < Self::mean_ceiling(upper),
        ensures
            d.spec_id() == id,
            d.spec_name() == name@,
            Self::mean_floor(lower) <= d.spec_mean() < Self::mean_ceiling(upper),
            TENTH <= d.spec_std_dev() < Self::std_dev_ceiling(upper),
    {
        let low: u64 = match lower {
            Some(l) => l,
            None => 0,
        };
        let high: u64 = match upper {
            Some(u) => u,
            None => u64::MAX,
        };
        let mean = random_in_range(low, high);
        let top: u64 = if high <= MAX_RANDOM_STD_DEV { high } else { MAX_RANDOM_STD_DEV };
        let std_dev = random_in_range(TENTH, top);
        NormalDistribution { mean, id, name, std_dev }
    }
}

} // verus!
