//! Core logic of the Take It Easy server and its tools: authentication
//! (models, JWT sessions, OAuth settings, email templates, request
//! decisions), the integer geometry of the hexagonal board, the game-data
//! files that the analysis and training tools read and write, and the
//! journeys that the end-to-end tests drive against the game server.

pub mod text;
pub mod random;
pub mod models;
pub mod board;
pub mod sorting;
pub mod grid;
pub mod stats;
pub mod recorded;
pub mod jwt;
pub mod middleware;
pub mod oauth;
pub mod email;
pub mod routes;
pub mod database;
pub mod game_state;
pub mod e2e;
pub mod solo_game;
pub mod real_game;
pub mod games;
pub mod datasets;
