//! Mafold from the terminal: a client of the Mafold API and an agent daemon that
//! has a local coding assistant reply as a bot.
//!
//! This library holds the decisions that the program makes, with a contract for
//! each: which requests it sends and how it reads the answers ([`client`]), which
//! events it reacts to and when it pings the server ([`agent`]), how a reply is
//! streamed into a draft that is finalized whatever happens ([`turn`], [`output`]),
//! when and in which steps the program replaces itself by a newer release
//! ([`update`], [`version`]), and what the command line asks for ([`settings`],
//! [`assistant`]). What talks to the network, to files and to other processes drives
//! it from outside. Left to it are where the running binary is found and what is
//! printed.
pub mod agent;
pub mod assistant;
pub mod client;
pub mod json;
pub mod output;
pub mod settings;
pub mod text;
pub mod turn;
pub mod update;
pub mod version;
