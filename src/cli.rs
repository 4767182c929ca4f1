use vstd::prelude::*;

verus! {

/// The command line: which feed to build, and the entity tag of the copy
/// of it last seen, where the site supports one.
#[derive(Debug, Clone, PartialEq, Eq)]
pub struct Opt {
    pub cmd: Command,
    pub etag: Option<String>,
}

/// The feeds that can be built.
#[derive(Debug, Clone, PartialEq, Eq)]
pub enum Command {
    /// A work on Archive Of Our Own, by story id.
    Ao3 { story_id: String },
    /// A Gelbooru search.
    Gelbooru { query: Vec<String> },
    /// A J-Novel Club series, by title slug.
    Jnovel { title_slug: String },
    /// A MangaDex series, by UUID.
    Mangadex { series: String },
    /// The threadmarks of a QQ thread.
    QQ { thread_id: String },
    /// Royal Road's trending and popular lists.
    RoyalRoad,
    /// The season's anime releases.
    SeasonalAnime,
    /// A game on tfgames, by id.
    Tfgames { game_id: String },
    /// Visual novel translation news.
    VnNews,
}

} // verus!
