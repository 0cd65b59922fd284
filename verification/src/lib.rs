pub mod acquisition;
pub mod capture;
pub mod crash;
pub mod decision;
pub mod desktop;
pub mod diagnosis;
pub mod gates;
pub mod digest;
pub mod json;
pub mod lease;
pub mod lease_ops;
pub mod lifecycle;
pub mod model;
pub mod normalize;
pub mod plan_json;
pub mod probe;
pub mod provenance;
pub mod reconcile;
pub mod recovery;
pub mod request;
pub mod reuse;
pub mod seqs;
pub mod text;
pub mod time;
pub mod capture_step;
pub mod rejoin;
pub mod crash_projection;
pub mod recovery_apply;
pub mod acquire;
