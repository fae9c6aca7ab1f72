//! Verified core of PAL·COMMAND, a control tower for a Palworld dedicated server: the
//! settings-file parser, secret redaction, save checks, snapshot archives, the RCON
//! framing, the SFTP/REST/git conversations' rules and messages, and the decisions behind
//! backups, restores and guarded restarts.
pub mod text;
pub mod paths;
pub mod ordering;
pub mod palconfig;
pub mod palconfig_laws;
pub mod savecheck;
pub mod archive;
pub mod backup;
pub mod redaction_laws;
pub mod config_store;
pub mod gitrepo;
pub mod rcon;
pub mod rest;
pub mod sftp;
pub mod commands;
pub mod flows;
pub mod backup_flow;
