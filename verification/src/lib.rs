//! A verified core for a message-processing workflow engine: the authoring
//! checks over workflow documents, the error model, retry and rollout
//! arithmetic, the built-in function vocabulary and the configs of the
//! built-in functions, the message envelope, routing of messages to
//! workflows, and the decisions the built-ins take on what their JSONLogic
//! expressions evaluate to.

pub mod text;
pub mod json;
pub mod json_text;
pub mod rollout;
pub mod steps;
pub mod authoring;
pub mod paths;
pub mod error;
pub mod retry;
pub mod config;
pub mod secrets;
pub mod order;
pub mod expressions;
pub mod secret_check;
pub mod template_keys;
pub mod for_each;
pub mod registry_check;
pub mod integration;
pub mod filter;
pub mod log;
pub mod task;
pub mod map;
pub mod operators;
pub mod publish;
pub mod message;
pub mod path_template;
pub mod observer;
pub mod validation;
pub mod processing;
pub mod compiler;
pub mod routing;
pub mod parse;
pub mod logic;
pub mod template;
pub mod reading;
pub mod function;
pub mod function_input;
pub mod http_source;
pub mod http_function;
pub mod values;
