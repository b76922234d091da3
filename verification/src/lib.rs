//! A YAML processing engine: scanner, event builder, composer, emitter and
//! serializer, with verified contracts over the whole pipeline.

pub mod chars;
pub mod composer;
pub mod emitter;
pub mod error;
pub mod event;
pub mod mark;
pub mod multi_document;
pub mod parser;
pub mod reader;
pub mod resolver;
pub mod roundtrip;
pub mod scanner;
pub mod serializer;
pub mod tags;
pub mod token;
