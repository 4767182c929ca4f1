//! Feed-building library for a set of site scrapers. Its core is a tag
//! classification cache for an image board: tag types are kept in a durable
//! store, missing ones are looked up in batches and reconciled, and post
//! titles are derived from the tags that name an artist, a character or a
//! copyright.

pub mod chapters;
pub mod cli;
pub mod feed;
pub mod hydrate;
pub mod localized;
pub mod news;
pub mod parts;
pub mod seasons;
pub mod store;
pub mod tags;
pub mod text;
pub mod title;

pub use chapters::{chapter_blocked, chapter_title, ChapterInfo, ChapterPaging, PagingError, PAGE_SIZE};
pub use cli::{Command, Opt};
pub use feed::{
    blacklist_match, exclusion_suffix, feed_link, post_link, posts_url, screen_posts, tags_url,
    text_before, Screened,
};
pub use hydrate::{
    batch_query, reconcile, reconcile_lowered, tag_batches, HydrateError, Reconciled, TagRecord,
    BATCH_SIZE,
};
pub use localized::{english_or_first, LocalizedString};
pub use news::is_kept_news;
pub use parts::{is_final_event, part_fragment, part_title};
pub use seasons::{any_of, quarter_open, Date};
pub use store::{encode_code, stored_code, OpenPhase};
pub use tags::{split_tags, tag_in_title};
pub use text::{encode_terms, join_strings};
pub use title::{merge_codes, missing_tags, title_for_post, title_from_decoded, Post};
