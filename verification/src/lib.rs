//! Verified core of a lightweight Minecraft limbo server: the wire encodings
//! of the protocol's data types, protocol versions, NBT (options, JSON to NBT
//! conversion, binary reading and writing), registries and what is sent of
//! them, the Floodgate handshake, chat commands, inventory and pick-block
//! logic, player profiles, configuration placeholders and packet batches.
pub mod packet_field;
pub mod decode_field;
pub mod var_int;
pub mod text;
pub mod string_field;
pub mod identifier;
pub mod length_padded_vec;
pub mod position;
pub mod uuid_field;
pub mod protocol_version;
pub mod version_name;
pub mod nbt;
pub mod crypto;
pub mod decimal;
pub mod floodgate;
pub mod registries;
pub mod registry_data;
pub mod registry_provider;
pub mod commands;
pub mod game_profile;
pub mod inventory;
pub mod configuration;
pub mod env_placeholders;
pub mod monitoring;
pub mod batch;
pub mod connection;
pub mod world;
