//! A validated, strongly typed object model for fixture description XML
//! documents, with an event-driven parsing framework and round-trip
//! serialization support.
//!
//! Documents are read through a trusted boundary around the pull-based
//! XML reader ([`tokenizer`]), which hands the library its own plain
//! event values; everything past that boundary -- the tree walker, the
//! collection builders, the identifier and value validators, and the
//! entities themselves -- is verified against specifications over those
//! events.

pub mod activation_group;
pub mod attribute;
pub mod attribute_definitions;
pub mod attribute_name;
pub mod color_cie;
pub mod dmx_channel;
pub mod dmx_mode;
pub mod error;
pub mod feature_group;
pub mod fixture_type;
pub mod guid;
pub mod keyed_list;
pub mod name;
pub mod node;
pub mod node_channel_function_attribute;
pub mod node_channel_function_filter;
pub mod node_logical_channel_attribute;
pub mod physical_unit;
pub mod snap;
pub mod testdata;
pub mod text;
pub mod tokenizer;
pub mod walker;
pub mod xml_event;
pub mod xml_write;
