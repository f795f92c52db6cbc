//! A runtime policy engine: it inspects textual operation contexts, detects
//! violations of a fixed set of behavioral axioms, scores the violation set
//! against adaptive per-axiom weights, and either tolerates the deviation or
//! rewrites the context through an ordered catalog of correction strategies.
//!
//! Real-valued quantities (weights, penalties, feedback) are held in fixed
//! point: weights and penalties in ten-thousandths of a unit, learning rate
//! and feedback in hundredths. A weight of `10000` therefore means `1.0`.

pub mod axioms;
pub mod healer;
pub mod regularizer;
pub mod text;
pub mod weights;

pub use healer::AxiomCounts;
pub use healer::AxiomaticSelfHealer;
pub use healer::CorrectionStrategy;
pub use healer::SeverityCounts;
pub use healer::StrategyCatalog;
pub use healer::ViolationStatistics;
pub use regularizer::AdaptiveAxiomaticRegularizer;

pub use axioms::Axiom;
pub use axioms::Severity;
pub use axioms::Violation;
