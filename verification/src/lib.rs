use vstd::prelude::*;

pub mod assessment;
pub mod cli;
pub mod crawler;
pub mod downloader;
pub mod extractor;
pub mod llm;
pub mod models;
pub mod readers;
pub mod text;
pub mod tui;
pub mod textops;
pub mod urls;
pub mod widgets;

verus! {

} // verus!
