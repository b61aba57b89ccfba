//! Reading, building and writing Modelfiles: the line-oriented documents
//! that tell Ollama how to derive a model from a base model.

pub mod message;
pub mod modelfile;
pub mod number;
pub mod text;

pub use message::Message;
pub use message::MessageRole;
pub use modelfile::builder::ModelfileBuilder;
pub use modelfile::Modelfile;
