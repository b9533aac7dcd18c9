//! A bridge between a dynamic host runtime's object graphs and the TOON
//! serialization format: host values are converted to a canonical value
//! model, handed to the external codec, and converted back. The converters,
//! the options adapter, the error taxonomy and the batch protocol are
//! verified; the codec itself is an external collaborator behind a narrow
//! trusted boundary.

pub mod api;
pub mod codec;
pub mod errors;
pub mod inbound;
pub mod laws;
pub mod numtext;
pub mod options;
pub mod outbound;
pub mod value;

pub use api::decode;
pub use api::decode_batch;
pub use api::decode_bytes;
pub use api::decode_with_options;
pub use api::dumps;
pub use api::encode;
pub use api::encode_batch;
pub use api::encode_bytes;
pub use api::encode_with_options;
pub use api::json_to_toon;
pub use api::loads;
pub use api::toon_to_json;
pub use api::validate;
pub use errors::CodecError;
pub use errors::ExceptionKind;
pub use errors::ToonException;
pub use errors::convert_toon_error;
pub use inbound::to_canonical;
pub use options::COMMA;
pub use options::Delimiter;
pub use options::Options;
pub use options::PIPE;
pub use options::TAB;
pub use options::build_options;
pub use outbound::from_canonical;
pub use value::Canon;
pub use value::HostFloat;
pub use value::HostInt;
pub use value::HostKey;
pub use value::HostValue;
