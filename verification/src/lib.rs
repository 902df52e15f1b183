//! A hierarchical test-orchestration engine.
//!
//! A runner walks an ordered sequence of tests (single checks and nested
//! groups) over one shared input, records every outcome and stops the pass as
//! soon as a critical test fails. The pass is driven by a small finite-state
//! machine whose legal transitions are fixed at compile time.

pub mod clock;
pub mod entity;
pub mod facts;
pub mod fsm;
pub mod laws;
pub mod pass;
pub mod report;
pub mod runner;
pub mod states;
pub mod status;
pub mod suite;
pub mod testing;

pub use entity::{Entity, Test, TestGroup};
pub use pass::TestRunner;
pub use report::{RunResult, TestResult};
pub use runner::{TestsRunner, TestsRunnerStatus};
pub use status::{Criticality, Status};
pub use suite::TestSuite;
pub use testing::TestTrait;
