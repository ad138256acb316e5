pub mod action_argument;
pub mod action_payload;
pub mod action_type;
pub mod argument_type;
pub mod cereal;
pub mod clock;
pub mod command_error;
pub mod general;
pub mod harness;
pub mod input_error;
pub mod persist;
pub mod response;
pub mod settings;
pub mod store_model;
pub mod text;
pub mod timed;
pub mod todolist;
