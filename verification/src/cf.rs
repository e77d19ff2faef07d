use vstd::prelude::*;
use vstd::std_specs::convert::FromSpecImpl;

verus! {

/// The factors that the racing model's coefficients weigh.
#[derive(Clone, Copy, Debug, PartialEq, Eq, Structural)]
pub enum Factor {
    RaceId,
    RunnerIndex,
    ActiveRunners,
    PlacesPaying,
    Stdev,
    Weight0,
    Weight1,
    Weight2,
    Weight3,
}

/// The number of factors.
pub const FACTOR_COUNT: usize = 9;

impl Factor {
    /// The factor's position in declaration order.
    pub open spec fn position(self) -> nat {
        match self {
            Factor::RaceId => 0,
            Factor::RunnerIndex => 1,
            Factor::ActiveRunners => 2,
            Factor::PlacesPaying => 3,
            Factor::Stdev => 4,
            Factor::Weight0 => 5,
            Factor::Weight1 => 6,
            Factor::Weight2 => 7,
            Factor::Weight3 => 8,
        }
    }

    pub fn ordinal(&self) -> (ordinal: usize)
        ensures
            ordinal == self.position(),
    {
        match self {
            Factor::RaceId => 0,
            Factor::RunnerIndex => 1,
            Factor::ActiveRunners => 2,
            Factor::PlacesPaying => 3,
            Factor::Stdev => 4,
            Factor::Weight0 => 5,
            Factor::Weight1 => 6,
            Factor::Weight2 => 7,
            Factor::Weight3 => 8,
        }
    }

    /// The factor's index into a coefficient vector.
    pub fn as_index(&self) -> (index: usize)
        ensures
            index == self.position(),
    {
        self.ordinal()
    }

    /// All factors, in declaration order.
    pub fn all() -> (factors: Vec<Factor>)
        ensures
            factors@.len() == FACTOR_COUNT,
            forall|i: int| 0 <= i < FACTOR_COUNT ==> (#[trigger] factors@[i]).position() == i,
    {
        vec![
            Factor::RaceId,
            Factor::RunnerIndex,
            Factor::ActiveRunners,
            Factor::PlacesPaying,
            Factor::Stdev,
            Factor::Weight0,
            Factor::Weight1,
            Factor::Weight2,
            Factor::Weight3,
        ]
    }

    pub open spec fn name(self) -> Seq<char> {
        match self {
            Factor::RaceId => "RaceId"@,
            Factor::RunnerIndex => "RunnerIndex"@,
            Factor::ActiveRunners => "ActiveRunners"@,
            Factor::PlacesPaying => "PlacesPaying"@,
            Factor::Stdev => "Stdev"@,
            Factor::Weight0 => "Weight0"@,
            Factor::Weight1 => "Weight1"@,
            Factor::Weight2 => "Weight2"@,
            Factor::Weight3 => "Weight3"@,
        }
    }

    /// The factor's name, as it is displayed.
    pub fn to_string(&self) -> (text: String)
        ensures
            text@ == self.name(),
    {
        let name = match self {
            Factor::RaceId => "RaceId",
            Factor::RunnerIndex => "RunnerIndex",
            Factor::ActiveRunners => "ActiveRunners",
            Factor::PlacesPaying => "PlacesPaying",
            Factor::Stdev => "Stdev",
            Factor::Weight0 => "Weight0",
            Factor::Weight1 => "Weight1",
            Factor::Weight2 => "Weight2",
            Factor::Weight3 => "Weight3",
        };
        String::from_str(name)
    }
}

impl From<Factor> for usize {
    fn from(factor: Factor) -> (index: usize) {
        factor.ordinal()
    }
}

impl FromSpecImpl<Factor> for usize {
    open spec fn obeys_from_spec() -> bool {
        true
    }

    open spec fn from_spec(factor: Factor) -> usize {
        factor.position() as usize
    }
}

/// Distinct factors have distinct indices, each below the factor count.
pub proof fn lemma_factor_positions(a: Factor, b: Factor)
    ensures
        a.position() < FACTOR_COUNT,
        a.position() == b.position() ==> a == b,
{
}

} // verus!
