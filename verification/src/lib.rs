pub mod branches;
pub mod cancel;
pub mod clock;
pub mod commit_id;
pub mod diff_view;
pub mod error;
pub mod git;
pub mod hex;
pub mod index_cache;
pub mod lines;
pub mod logger;
pub mod numbers;
pub mod paging;
pub mod positions;
pub mod query;
pub mod recent_repos;
pub mod repo;
pub mod search;
pub mod seeds;
pub mod session;
pub mod state;
pub mod status;
pub mod std_ext;
pub mod store;
pub mod tags;
pub mod text;
pub mod walker;
