//! The typed fragments that appear between a packet's fixed header and its
//! payload: protocol name and level, connect flags, keep-alive, packet
//! identifier, return codes and topic names.
pub mod connect_ack_flag;
pub mod connect_flags;
pub mod connect_return_code;
pub mod keep_alive;
pub mod packet_identifier;
pub mod protocol_level;
pub mod protocol_name;
pub mod topic_name;
pub mod will_message;

pub use connect_ack_flag::ConnectAckFlags;
pub use connect_flags::ConnectFlags;
pub use connect_return_code::ConnectReturnCode;
pub use keep_alive::KeepAlive;
pub use packet_identifier::PacketIdentifier;
pub use protocol_level::ProtocolLevel;
pub use protocol_name::ProtocolName;
pub use topic_name::TopicName;
pub use will_message::VecBytes;
