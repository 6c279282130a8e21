pub mod config;
pub mod consumer;
pub mod http;
pub mod message;
pub mod placeholder;

pub use config::{Config, ConfigError};
pub use consumer::{
    Consumer, ConsumerAction, ConsumerEvent, ConsumerState, POOL_SIZE, RETRY_INTERVAL_SECS,
};
pub use http::{HttpMethod, RequestBuilder, RequestDescriptor};
pub use message::{
    decode, map_message, parse_message, string_fields_of, DecodeError, JsonObject, JsonValue,
    MessageMap,
};
pub use placeholder::make_url;
