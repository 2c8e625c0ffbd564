//! Solanum tracks pomodoro sessions: a work interval followed by a break.
//!
//! The crate holds the command-processing core of the daemon: the session
//! state machine, the command grammar, the repository interface with an
//! in-memory implementation, the rendering of responses and the decisions of
//! the event loop. Socket, database and process handling live with the
//! binaries that use this library.

pub mod clock;
pub mod command;
pub mod command_processor;
pub mod command_responder;
pub mod connection;
pub mod daemonize;
pub mod event_poller;
pub mod in_memory_pomodoros;
pub mod pomodoro;
pub mod pomodoro_query_mapper;
pub mod pomodoro_transitioner;
pub mod pomodoros;
pub mod result;
pub mod system_clock;
pub mod text;
pub mod time;

pub use clock::Clock;
pub use command::Command;
pub use command_processor::CommandProcessor;
pub use command_responder::CommandResponder;
pub use event_poller::{EventPoller, EventSubscriptionDescriptor};
pub use in_memory_pomodoros::InMemoryPomodoros;
pub use pomodoro::{Pomodoro, PomodoroStatus};
pub use pomodoro_query_mapper::PomodoroQueryMapper;
pub use pomodoro_transitioner::PomodoroTransitioner;
pub use pomodoros::Pomodoros;
pub use result::Error;
pub use system_clock::SystemClock;
pub use time::{Duration, Instant};
