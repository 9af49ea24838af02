//! Verified core logic of the TAU agent: breakers, rooms, chunking, compaction
//! bookkeeping and the decision functions of the browser and git tools.

pub mod circuit_breaker;
pub mod text;
pub mod compaction;
pub mod retry;
pub mod thread_history;
pub mod chunker;
pub mod room;
pub mod embedding;
pub mod rag_search;
pub mod accessibility;
pub mod ax_tree;
pub mod cdp;
pub mod page_scripts;
pub mod page_targets;
pub mod browser_skills;
pub mod browser_runtime;
pub mod browser_tool;
pub mod browser_detection;
pub mod git_tools;
pub mod perf;
pub mod search_semantic;
pub mod credentials;
pub mod thread_types;
pub mod web_search;
pub mod result_pages;
pub mod turn;
pub mod reply;
pub mod replay;
pub mod keyed;
pub mod tool_registry;
pub mod crdt;
pub mod authorization;
pub mod cdp_session;
