pub mod grok;
pub mod token;
