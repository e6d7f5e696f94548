//! Fetch-and-filter core of a news reader: keyword files, a case-insensitive
//! multi-pattern matcher, story records and the rules that turn fetched
//! details into the list of stories worth showing.

pub mod keywords;
pub mod matcher;
pub mod pipeline;
pub mod story;

pub use keywords::{
    default_keyword_content, parse_keyword_lines, select_keyword_source, KeywordSource,
};
pub use matcher::{KeywordMatcher, PatternError};
pub use pipeline::{collect_details, filter_matching, finish_run, select_ids};
pub use story::{json_or_null, parse_story, parse_story_ids, RunError, Story};
