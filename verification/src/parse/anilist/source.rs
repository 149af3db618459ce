//! The fixed vocabulary of source materials.

use crate::errors::ParseError;
use crate::text::str_eq;
use vstd::prelude::*;

verus! {

#[derive(Clone, Copy, PartialEq, Eq, Structural, Debug)]
pub enum Source {
    Original,
    Manga,
    LightNovel,
    WebNovel,
    Novel,
    Anime,
    VisualNovel,
    VideoGame,
    Doujinshi,
    Comic,
    LiveAction,
    Game,
    MultimediaProject,
    Other,
}

/// The source a textual value names, if any.
pub open spec fn source_of(s: Seq<char>) -> Option<Source> {
    if s == "Original"@ {
        Some(Source::Original)
    } else if s == "Manga"@ {
        Some(Source::Manga)
    } else if s == "Light Novel"@ {
        Some(Source::LightNovel)
    } else if s == "Web Novel"@ {
        Some(Source::WebNovel)
    } else if s == "Novel"@ {
        Some(Source::Novel)
    } else if s == "Anime"@ {
        Some(Source::Anime)
    } else if s == "Visual Novel"@ {
        Some(Source::VisualNovel)
    } else if s == "Video Game"@ {
        Some(Source::VideoGame)
    } else if s == "Doujinshi"@ {
        Some(Source::Doujinshi)
    } else if s == "Comic"@ {
        Some(Source::Comic)
    } else if s == "Live Action"@ {
        Some(Source::LiveAction)
    } else if s == "Game"@ {
        Some(Source::Game)
    } else if s == "Multimedia Project"@ {
        Some(Source::MultimediaProject)
    } else if s == "Other"@ {
        Some(Source::Other)
    } else {
        None
    }
}

/// The textual name of a source.
pub open spec fn source_name(s: Source) -> Seq<char> {
    match s {
        Source::Original => "Original"@,
        Source::Manga => "Manga"@,
        Source::LightNovel => "Light Novel"@,
        Source::WebNovel => "Web Novel"@,
        Source::Novel => "Novel"@,
        Source::Anime => "Anime"@,
        Source::VisualNovel => "Visual Novel"@,
        Source::VideoGame => "Video Game"@,
        Source::Doujinshi => "Doujinshi"@,
        Source::Comic => "Comic"@,
        Source::LiveAction => "Live Action"@,
        Source::Game => "Game"@,
        Source::MultimediaProject => "Multimedia Project"@,
        Source::Other => "Other"@,
    }
}

/// Validates a textual source against the fixed vocabulary; an
/// unrecognized value is a parse failure, never coerced.
pub fn to_source(source: &str) -> (r: Result<Source, ParseError>)
    ensures
        match r {
            Ok(s) => source_of(source@) == Some(s),
            Err(e) => source_of(source@) is None && e == ParseError::UnknownSource,
        },
{
    if str_eq(source, "Original") {
        Ok(Source::Original)
    } else if str_eq(source, "Manga") {
        Ok(Source::Manga)
    } else if str_eq(source, "Light Novel") {
        Ok(Source::LightNovel)
    } else if str_eq(source, "Web Novel") {
        Ok(Source::WebNovel)
    } else if str_eq(source, "Novel") {
        Ok(Source::Novel)
    } else if str_eq(source, "Anime") {
        Ok(Source::Anime)
    } else if str_eq(source, "Visual Novel") {
        Ok(Source::VisualNovel)
    } else if str_eq(source, "Video Game") {
        Ok(Source::VideoGame)
    } else if str_eq(source, "Doujinshi") {
        Ok(Source::Doujinshi)
    } else if str_eq(source, "Comic") {
        Ok(Source::Comic)
    } else if str_eq(source, "Live Action") {
        Ok(Source::LiveAction)
    } else if str_eq(source, "Game") {
        Ok(Source::Game)
    } else if str_eq(source, "Multimedia Project") {
        Ok(Source::MultimediaProject)
    } else if str_eq(source, "Other") {
        Ok(Source::Other)
    } else {
        Err(ParseError::UnknownSource)
    }
}

impl Source {
    /// The textual name of this source.
    pub fn as_str(&self) -> (r: &'static str)
        ensures
            r@ == source_name(*self),
    {
        match self {
            Source::Original => "Original",
            Source::Manga => "Manga",
            Source::LightNovel => "Light Novel",
            Source::WebNovel => "Web Novel",
            Source::Novel => "Novel",
            Source::Anime => "Anime",
            Source::VisualNovel => "Visual Novel",
            Source::VideoGame => "Video Game",
            Source::Doujinshi => "Doujinshi",
            Source::Comic => "Comic",
            Source::LiveAction => "Live Action",
            Source::Game => "Game",
            Source::MultimediaProject => "Multimedia Project",
            Source::Other => "Other",
        }
    }
}

} // verus!
