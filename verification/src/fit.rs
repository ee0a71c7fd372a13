//! Deciding how the coefficients of the surface
//! `z = (a x + b y + c) / (d x + e y + 1)` are obtained: taken as supplied,
//! or solved for from a cloud that holds enough points. The least-squares
//! solve itself is done by the caller, who hands its outcome back.

use vstd::prelude::*;
use crate::cloud::PointCloud;
use crate::config::ConfigError;

verus! {

/// The number of coefficients of the surface.
pub const COEFFICIENTS: usize = 5;

/// The least number of points that determine the coefficients.
pub const MIN_FIT_POINTS: usize = 5;

/// The coefficients of the surface, as encodings.
#[derive(Clone, Copy, Debug, PartialEq, Eq, Structural)]
pub struct FitCoefficients {
    pub a: u64,
    pub b: u64,
    pub c: u64,
    pub d: u64,
    pub e: u64,
}

/// Where the coefficients come from.
#[derive(Debug)]
pub enum FitSource {
    /// They are to be fitted to this cloud.
    Computed(PointCloud),
    /// They were given.
    Supplied(FitCoefficients),
}

/// What is left to do before the coefficients are known.
#[derive(Debug)]
pub enum FitStep {
    /// Nothing: these are the coefficients.
    Ready(FitCoefficients),
    /// The least-squares system of this cloud has to be solved.
    Solve(PointCloud),
}

/// How a least-squares solve ended.
#[derive(Debug)]
pub enum SolveOutcome {
    /// The solver returned these values.
    Solved(Vec<u64>),
    /// The solver failed, for this reason.
    Failed(String),
}

/// Why there are no coefficients.
#[derive(Debug)]
pub enum FitError {
    /// The cloud holds fewer points than the fit needs.
    InsufficientData { points: usize },
    /// The solve failed numerically, or did not yield five coefficients.
    Divergence { reason: String },
}

impl FitCoefficients {
    /// The coefficients in the order a, b, c, d, e.
    pub open spec fn values(self) -> Seq<u64> {
        seq![self.a, self.b, self.c, self.d, self.e]
    }

    /// Takes five values as the coefficients a to e.
    pub fn from_values(values: &Vec<u64>) -> (r: Result<FitCoefficients, ConfigError>)
        ensures
            r.is_ok() <==> values.len() == COEFFICIENTS,
            r matches Ok(c) ==> c.values() == values@,
            r matches Err(e) ==> e == ConfigError::CoefficientCount,
    {
        if values.len() == COEFFICIENTS {
            let c = FitCoefficients {
                a: values[0],
                b: values[1],
                c: values[2],
                d: values[3],
                e: values[4],
            };
            proof {
                assert(c.values() =~= values@);
            }
            Ok(c)
        } else {
            Err(ConfigError::CoefficientCount)
        }
    }

    /// The coefficients as a vector, in the order a, b, c, d, e.
    pub fn to_values(&self) -> (r: Vec<u64>)
        ensures
            r@ == self.values(),
    {
        let mut r: Vec<u64> = Vec::new();
        r.push(self.a);
        r.push(self.b);
        r.push(self.c);
        r.push(self.d);
        r.push(self.e);
        proof {
            assert(r@ =~= self.values());
        }
        r
    }
}

/// Decides what a source of coefficients asks for. Supplied coefficients are
/// ready as they are. A cloud is handed on to be solved where it holds at
/// least five points, and is refused otherwise.
pub fn plan_fit(source: FitSource) -> (r: Result<FitStep, FitError>)
    ensures
        source matches FitSource::Supplied(c) ==> r matches Ok(FitStep::Ready(k)) && k == c,
        source matches FitSource::Computed(cloud) ==> if cloud@.len() >= MIN_FIT_POINTS {
            r matches Ok(FitStep::Solve(kept)) && kept == cloud
        } else {
            r matches Err(FitError::InsufficientData { points }) && points == cloud@.len()
        },
{
    match source {
        FitSource::Supplied(c) => Ok(FitStep::Ready(c)),
        FitSource::Computed(cloud) => {
            let points: usize = cloud.points.len();
            if points >= MIN_FIT_POINTS {
                Ok(FitStep::Solve(cloud))
            } else {
                Err(FitError::InsufficientData { points })
            }
        },
    }
}

/// Takes the outcome of the solve. Five values are the coefficients a to e;
/// a failed solve, or any other number of values, is a divergence.
pub fn accept_solution(outcome: SolveOutcome) -> (r: Result<FitCoefficients, FitError>)
    ensures
        r.is_ok() <==> (outcome matches SolveOutcome::Solved(values) && values@.len()
            == COEFFICIENTS),
        r matches Ok(c) ==> outcome matches SolveOutcome::Solved(values) && c.values() == values@,
        r matches Err(e) ==> e is Divergence,
        outcome matches SolveOutcome::Failed(why) ==> r matches Err(
            FitError::Divergence { reason },
        ) && reason == why,
        outcome matches SolveOutcome::Solved(values) ==> (values@.len() != COEFFICIENTS ==> (
        r matches Err(FitError::Divergence { reason }) && reason@
            == "the solver did not return five coefficients"@)),
{
    match outcome {
        SolveOutcome::Solved(values) => match FitCoefficients::from_values(&values) {
            Ok(c) => Ok(c),
            Err(_) => Err(
                FitError::Divergence {
                    reason: String::from_str("the solver did not return five coefficients"),
                },
            ),
        },
        SolveOutcome::Failed(reason) => Err(FitError::Divergence { reason }),
    }
}

} // verus!
