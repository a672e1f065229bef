//! Transport-and-framing core for a request/response bridge: a verified
//! implementation of the WebSocket wire protocol (RFC 6455 framing,
//! fragmentation reassembly, control-frame semantics, payload masking)
//! together with a streaming message-body abstraction with explicit
//! backpressure.

pub mod body;
pub mod bytebuf;
pub mod codec;
pub mod extensions;
pub mod frame;
pub mod session;

pub use body::ReadOutcome;
pub use extensions::DocumentRoot;
pub use extensions::ResponseException;
pub use body::StreamError;
pub use body::StreamingBody;
pub use codec::WebSocketCodec;
pub use session::WebSocketDecoder;
pub use session::WebSocketEncoder;
pub use frame::WebSocketError;
pub use frame::WebSocketFrame;
pub use frame::WebSocketOpcode;
