pub mod benchmark_utils;
pub mod buffer_manager;
pub mod byte_stream;
pub mod cli;
pub mod config;
pub mod error;
pub mod output;
pub mod pcre2_processor;
pub mod regex_processor;
pub mod stream;
pub mod translit;

pub use cli::Cli;
pub use config::Config;
pub use error::BingrepError;
pub use regex_processor::RegexProcessor;
pub use stream::FileProcessor;
