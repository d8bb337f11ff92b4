//! What every native session shares: remote barriers and bounded output queues.
pub mod confirmation;
pub mod media;
pub mod outputs;
pub mod terminal;
pub use confirmation::Confirmation;
pub use outputs::Outputs;
pub use terminal::Terminal;
