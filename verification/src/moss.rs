pub mod artifact_guard;
pub mod types;
pub mod store;
pub mod blackboard;
pub mod prompts;
pub mod template;
pub mod solver;
pub mod decomposition;
pub mod orchestrator;
pub mod json;
pub mod compiler;
pub mod executor;
pub mod runner;
