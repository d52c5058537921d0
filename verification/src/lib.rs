//! Verified core of a chat front end that drives a command-line AI agent.
//!
//! A chat message is answered by one run of an external agent executable.
//! The library holds every rule of that: which backend serves the message
//! (`backend`, `ai`), which executable is run (`resolver`), what it is
//! handed (`runner`), what is made of its output (`trailer`, `runner`), how
//! the answer is delivered chunk by chunk (`stream`), and the state machine
//! that ties the steps together for one request (`orchestrator`, with the
//! `registry` of requests in flight). It never touches the outside world:
//! the caller probes the file system, runs the child, keeps the time and
//! delivers the events, and tells the library what it saw.
//!
//! The remaining modules hold the rules of the application around the chat:
//! its configuration (`config`), stored chat sessions (`chat_session`),
//! directory listings and logs (`files`), settings (`settings`), terminal
//! sessions (`terminal`), notifications (`notification`), and the main
//! window and tray icon (`window`). `text`, `textmap`, `ordering`, `paths`
//! and `ids` are the tools that the others share.
//!
//! Every executable function is verified against its contract, but for the
//! few that call outside code; their contracts are stated without proof and
//! say so.

pub mod ai;
pub mod backend;
pub mod chat_session;
pub mod config;
pub mod error;
pub mod files;
pub mod ids;
pub mod notification;
pub mod orchestrator;
pub mod ordering;
pub mod paths;
pub mod registry;
pub mod resolver;
pub mod runner;
pub mod settings;
pub mod stream;
pub mod terminal;
pub mod text;
pub mod textmap;
pub mod trailer;
pub mod window;
