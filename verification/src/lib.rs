pub mod error;
pub mod text;
pub mod checks;
pub mod crypto;
pub mod encoding;
pub mod strmap;
pub mod state;
pub mod certification;
pub mod drain;
pub mod projection;
pub mod reconstruction;
pub mod transfer;
pub mod origin;
pub mod event;
pub mod serialization;
pub mod hash;
pub mod signature;
pub mod region;
pub mod wallet;
pub mod validation;
pub mod dag;
pub mod replay;
pub mod json;
pub mod stateroot;
pub mod statejson;
pub mod record;
pub mod consensus;
pub mod snapshot;
pub mod storage;
pub mod query;
pub mod ratio;
pub mod engine;
pub mod acceptance;
pub mod genesis;
pub mod rootorder;
pub mod dagorder;
pub mod replayorder;
pub mod regionfind;
pub mod checked;
pub mod interpreter;
pub mod session;
pub mod sdk;
pub mod developer;
