//! The decisions of a chat bot that fetches files from URLs and uploads them to the
//! chat.
//!
//! A program around this library talks to the chat service and to the sources of
//! the files. It hands over plain values and does what comes back:
//!
//! - [`bot`] decides which messages are answered, keeps the table of chats that have
//!   an upload, and decides who may stop one;
//! - [`request`] reads links and file names out of messages, and [`command`] reads
//!   commands;
//! - [`naming`] decides what a file is called;
//! - [`transfer`] takes a download through the steps of its upload;
//! - [`progress`], [`sizes`] and [`pages`] write what the bot says;
//! - [`config`] reads what the bot is configured with;
//! - [`text`] holds operations on texts, and [`outside`] and [`tables`] the functions
//!   and collections of other crates.

pub mod bot;
pub mod command;
pub mod config;
pub mod naming;
pub mod outside;
pub mod pages;
pub mod progress;
pub mod request;
pub mod sizes;
pub mod tables;
pub mod text;
pub mod transfer;
