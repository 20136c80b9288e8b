//! Slaxide: the verified core of a timeline-first Slack client.
pub mod actions;
pub mod alerts;
pub mod api;
pub mod attachments;
pub mod auth;
pub mod binary64;
pub mod blocks;
pub mod choices;
pub mod collections;
pub mod decisions;
pub mod connecting;
pub mod deck;
pub mod display;
pub mod emoji;
pub mod events;
pub mod forms;
pub mod happenings;
pub mod history;
pub mod inline;
pub mod items;
pub mod json;
pub mod laws;
pub mod layout;
pub mod live;
pub mod loading;
pub mod matching;
pub mod models;
pub mod notation;
pub mod notify;
pub mod office;
pub mod outcomes;
pub mod patterns;
pub mod permalinks;
pub mod platform;
pub mod previews;
pub mod queries;
pub mod ranking;
pub mod reactions;
pub mod readings;
pub mod rich_text;
pub mod rule_ids;
pub mod sample;
pub mod segments;
pub mod sessions;
pub mod settings;
pub mod showing;
pub mod slack;
pub mod stamps;
pub mod standing;
pub mod startup;
pub mod state;
pub mod surface;
pub mod sync;
pub mod text;
pub mod theme;
pub mod tiles;
pub mod time;
pub mod typing;
pub mod updates;
pub mod urls;
pub mod wording;
