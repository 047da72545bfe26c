//! What a music player plays, how much of it was heard, and whom to tell.
//!
//! - [`polling`] follows the player from poll to poll and decides what each
//!   poll means for the track that is being followed.
//! - [`status_backend`] holds the ledger of listened time, the rule for when a
//!   track counts as listened to, and the plan of calls to the reporting
//!   destinations.
//! - [`lastfm`] speaks the scrobbling service's protocol: parameters, their
//!   signature, the authorization handshake, and the service's errors.
//! - [`config`] reads the answers that are typed to the set-up wizard.
//! - [`track`], [`text`], [`clock`] and [`unaligned_u16`] are what the others
//!   are built from.
//!
//! The library reads no player, opens no connection and keeps no file: it
//! takes what was read and says what to send.

pub mod clock;
pub mod config;
pub mod lastfm;
pub mod polling;
pub mod status_backend;
pub mod text;
pub mod track;
pub mod unaligned_u16;
