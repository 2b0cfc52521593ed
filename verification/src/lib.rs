//! Trashy Bot: the games, parsers, texts and state of a Discord bot.
pub mod account;
pub mod bank;
pub mod blackjack;
pub mod bot;
pub mod combo;
pub mod commands;
pub mod dice;
pub mod dispatch;
pub mod events;
pub mod fav;
pub mod fav_flow;
pub mod groups;
pub mod guild_config;
pub mod lastfm;
pub mod links;
pub mod lockdown;
pub mod misc;
pub mod moderation;
pub mod optout;
pub mod order;
pub mod poll;
pub mod reaction_roles;
pub mod remind;
pub mod rules;
pub mod slot;
pub mod text;
pub mod userinfo;
pub mod wait;
pub mod words;
pub mod xkcd;
