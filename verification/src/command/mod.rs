//! The canonical command graph: one typed model of everything this repository can be
//! asked to run, and the projections every developer-facing surface is rendered from.
//!
//! Three declarations contribute commands — the native command line, the shell tool's
//! registry and the workflow tree — and the graph composes, validates and names them.
//! Every surface is a rendering of the graph: the Just bridge, shell completion, the
//! entry banner and the Cockpit. The direction never reverses: no projection is read back
//! as a source, no surface invokes another surface, and no surface holds a list of
//! commands of its own.

pub mod activate;
pub mod completion;
pub mod facts;
pub mod graph;
pub mod just;
pub mod model;
pub mod native;
pub mod projection;
pub mod semantics;
pub mod shell;
pub mod structure;
pub mod values;
pub mod workflow;

pub use completion::sanitise;
pub use facts::Facts;
pub use graph::{CommandGraph, Surface};
pub use model::{
    Alias, ArgumentSpec, Availability, CommandId, CommandNode, Deprecation, Diagnostic,
    EffectClass, EnumValue, Example, Execution, Interactivity, Program, Projections, Provenance,
    Requirement, Sensitivity, ValueRegistry, ValueSource, Visibility, SCHEMA,
};
pub use semantics::CommandSemantics;
