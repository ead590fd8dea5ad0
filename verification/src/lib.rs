//! Runtime support for generated API clients: request descriptions, header
//! maps, date and time values, and the plain-text, form and JSON payload
//! formats, each with its contract proved by Verus.

pub mod text;
pub mod api_error;
pub mod date_only;
pub mod time_only;
pub mod string_map;
pub mod case_insensitive_map;
pub mod request_information;
pub mod uuid_value;
pub mod scalar;
pub mod text_parse_node;
pub mod text_serialization_writer;
pub mod form_parse_node;
pub mod form_serialization_writer;
pub mod authentication;
pub mod http_adapter;
pub mod registry;
pub mod json_value;
pub mod json_codec;
pub mod json_parse_node;
pub mod json_serialization_writer;
pub mod date_time;
