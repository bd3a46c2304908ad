//! A verified core for a line-oriented concatenation utility.
//!
//! The library holds the configuration type with its composite-flag
//! expansion, the per-line transformation engine (line numbering,
//! end-of-line markers, leading-tab rendering, blank-line squeezing),
//! and the error-message formatting. All I/O stays with the caller.

mod engine;
mod exit_codes;
mod opt;
mod state;

pub use engine::calculate_next_line;
pub use engine::change_string;
pub use engine::echo;
pub use engine::is_blank;
pub use engine::not_a_file_message;
pub use engine::read_line_error_message;
pub use exit_codes::ExitCode;
pub use opt::Opt;
pub use state::State;
