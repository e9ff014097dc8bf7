//! Decision logic of a ticket-purchasing client for Bilibili shows: clock
//! synchronisation, retry pacing, request bodies and tokens, response
//! normalisation, sign-in and account records, and the stored history.
pub mod buy;
pub mod clock;
pub mod json;
pub mod order;
pub mod project;
pub mod session;
pub mod storage;
pub mod task;
pub mod text;
pub mod time_sync;
pub mod util;
pub mod web;
