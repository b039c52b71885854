//! Chat history management: the entity model of chat histories, practical comparison of
//! entities, merge analysis of two snapshots of one chat, and supporting parsers and helpers.

pub mod ids;
pub mod cmp_result;
pub mod text;
pub mod model;
pub mod files;
pub mod ext;
pub mod rich_text;
pub mod numbers;
pub mod entity_utils;
pub mod message_utils;
pub mod searchable;
pub mod facts;
pub mod equality;
pub mod merge;
pub mod analyzer;
pub mod blob;
pub mod comparison;
pub mod master_slave;
pub mod utils;
pub mod sql;
pub mod smart_slice;
pub mod tg_keeper;
pub mod tg_media;
pub mod tg_message;
pub mod signal;
pub mod whatsapp_system;
pub mod whatsapp_chat;
pub mod raw_mapping;
pub mod telegram;
pub mod loaders;
pub mod ui;
pub mod dao;
pub mod stream;
pub mod whitespace;
pub mod rich_text_norm;
pub mod utf16;
pub mod tg_service;
pub mod whatsapp;
pub mod tinder;
pub mod instagram;
