//! Adaptive, non-adaptive and fixed-order quadrature in fixed-point arithmetic.
//!
//! Every quantity the library handles (abscissae, integrand values, integral
//! estimates, error estimates, tolerances) is a fixed-point number: a count of
//! quanta, of which `fixedpoint::ONE` make up the unit. All arithmetic is exact
//! integer arithmetic, so the bookkeeping invariants of the adaptive engine hold
//! exactly and are proved.
//!
//! The parts of the library:
//!
//! - `fixedpoint`, `elementary`: the numbers, their arithmetic and the
//!   elementary functions on them;
//! - `rule_tables`, `rule`: the Gauss-Kronrod rules, which estimate the
//!   integral over one interval and the error of the estimate;
//! - `workspace`: the working set of intervals, ordered by their errors;
//! - `status`, `driver`: the outcome of an integration and the state machine
//!   that decides when to bisect and when to stop;
//! - `extrapolation`: the epsilon algorithm, which accelerates the convergence
//!   of the sequence of estimates;
//! - `course`, `adaptive`, `transform`, `weighted`: the adaptive routines for
//!   finite and infinite ranges, for known singular points and for weight
//!   functions;
//! - `curtis_tables`, `analysis_tables`, `cquad`: the doubly adaptive routine
//!   on nested Clenshaw-Curtis rules;
//! - `legendre_tables`, `legendre`, `fixed_order`: fixed-order rules, the
//!   Gauss-Legendre ones tabulated or computed.
use vstd::prelude::*;

pub mod fixedpoint;
pub mod elementary;
pub mod workspace;
pub mod rule_tables;
pub mod rule;
pub mod status;
pub mod driver;
pub mod transform;
pub mod course;
pub mod adaptive;
pub mod extrapolation;
pub mod weighted;
pub mod legendre;
pub mod legendre_tables;
pub mod fixed_order;
pub mod curtis_tables;
pub mod analysis_tables;
pub mod cquad;

pub use adaptive::Scheme;
pub use cquad::CquadWorkspace;
pub use driver::{Action, Driver, DriverState};
pub use extrapolation::{Accelerator, ExtrapolationTable};
pub use fixed_order::{GLFixedTable, IntegrationFixedType, IntegrationFixedWorkspace};
pub use rule::RuleEstimate;
pub use rule_tables::GaussKronrodRule;
pub use status::Value;
pub use weighted::{IntegrationQawo, IntegrationQawoTable, IntegrationQawsTable, Weight};
pub use workspace::{IntegrationWorkspace, Subinterval};
