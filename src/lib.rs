//! Helpers around running child processes: classifying how a child ended,
//! the line relay that feeds one child's output into another's input, and the
//! order of steps of such a two-process pipe.
//!
//! The process machinery itself (spawning, waiting, pipes and files) stays
//! with the caller; this crate decides what those observations mean.
//!
//! The relay is line-oriented and not binary-safe: a line that does not decode
//! as UTF-8 is skipped, and the last line always leaves with a line feed. It
//! reads and writes on one thread, so a downstream process that fills its own
//! captured output before reading all of its input can stall the pipe.
mod cmd_spawn;
mod pipe;
mod relay;

pub use cmd_spawn::{
    ChildError, CmdSpawnError, ExitState, UNKNOWN_PROGRAM, child_message, classify_exit,
    code_text, decimal_int, decimal_nat, digit_char, reported_program, spawn_outcome,
};
pub use pipe::{
    PipeEvent, PipeFault, PipeStage, is_final, lemma_finish_needs_every_step, lemma_pipe_end_is_kept,
    next_stage, occurs_in_order, pipe_step, run_pipe, steps_to_finish,
};
pub use relay::{
    CARRIAGE_RETURN, NEWLINE, forwarded, lemma_line_len_at, lemma_line_len_bounds,
    lemma_relay_ends_last_line, lemma_relay_keeps_lines, lemma_relay_prefix_lines, line_content,
    line_len, relay_line, relay_lines, relayed, terminated_lines, utf8_valid, well_formed_line,
};
