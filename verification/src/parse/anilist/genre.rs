//! The fixed vocabulary of genres.

use crate::errors::ParseError;
use crate::text::str_eq;
use vstd::prelude::*;

verus! {

#[derive(Clone, Copy, PartialEq, Eq, Structural, Debug)]
pub enum Genre {
    Action,
    Adventure,
    Comedy,
    Drama,
    Ecchi,
    Fantasy,
    Horror,
    MahouShoujo,
    Mecha,
    Music,
    Mystery,
    Psychological,
    Romance,
    SciFi,
    SliceOfLife,
    Sports,
    Supernatural,
    Thriller,
}

/// The genre a textual value names, if any.
pub open spec fn genre_of(s: Seq<char>) -> Option<Genre> {
    if s == "Action"@ {
        Some(Genre::Action)
    } else if s == "Adventure"@ {
        Some(Genre::Adventure)
    } else if s == "Comedy"@ {
        Some(Genre::Comedy)
    } else if s == "Drama"@ {
        Some(Genre::Drama)
    } else if s == "Ecchi"@ {
        Some(Genre::Ecchi)
    } else if s == "Fantasy"@ {
        Some(Genre::Fantasy)
    } else if s == "Horror"@ {
        Some(Genre::Horror)
    } else if s == "Mahou Shoujo"@ {
        Some(Genre::MahouShoujo)
    } else if s == "Mecha"@ {
        Some(Genre::Mecha)
    } else if s == "Music"@ {
        Some(Genre::Music)
    } else if s == "Mystery"@ {
        Some(Genre::Mystery)
    } else if s == "Psychological"@ {
        Some(Genre::Psychological)
    } else if s == "Romance"@ {
        Some(Genre::Romance)
    } else if s == "Sci-Fi"@ {
        Some(Genre::SciFi)
    } else if s == "Slice of Life"@ {
        Some(Genre::SliceOfLife)
    } else if s == "Sports"@ {
        Some(Genre::Sports)
    } else if s == "Supernatural"@ {
        Some(Genre::Supernatural)
    } else if s == "Thriller"@ {
        Some(Genre::Thriller)
    } else {
        None
    }
}

/// The genre list a list of textual values names: `None` as soon as one
/// value falls outside the vocabulary.
pub open spec fn genres_of(names: Seq<Seq<char>>) -> Option<Seq<Genre>>
    decreases names.len(),
{
    if names.len() == 0 {
        Some(Seq::empty())
    } else {
        match genre_of(names[0]) {
            None => None,
            Some(g) => match genres_of(names.drop_first()) {
                None => None,
                Some(rest) => Some(seq![g] + rest),
            },
        }
    }
}

pub proof fn lemma_genres_of_snoc(names: Seq<Seq<char>>, name: Seq<char>)
    ensures
        genres_of(names.push(name)) == match (genres_of(names), genre_of(name)) {
            (Some(gs), Some(g)) => Some::<Seq<Genre>>(gs.push(g)),
            _ => None::<Seq<Genre>>,
        },
    decreases names.len(),
{
    if names.len() == 0 {
        assert(names.push(name).drop_first() =~= names);
        match genre_of(name) {
            Some(g) => {
                assert(seq![g] + Seq::<Genre>::empty() =~= genres_of(names)->Some_0.push(g));
            },
            None => {},
        }
    } else {
        lemma_genres_of_snoc(names.drop_first(), name);
        assert(names.push(name).drop_first() =~= names.drop_first().push(name));
        match (genre_of(names[0]), genres_of(names.drop_first()), genre_of(name)) {
            (Some(g0), Some(rest), Some(g)) => {
                assert(seq![g0] + rest.push(g) =~= (seq![g0] + rest).push(g));
            },
            _ => {},
        }
    }
}

fn convert_genre(genre: &str) -> (r: Option<Genre>)
    ensures
        r == genre_of(genre@),
{
    if str_eq(genre, "Action") {
        Some(Genre::Action)
    } else if str_eq(genre, "Adventure") {
        Some(Genre::Adventure)
    } else if str_eq(genre, "Comedy") {
        Some(Genre::Comedy)
    } else if str_eq(genre, "Drama") {
        Some(Genre::Drama)
    } else if str_eq(genre, "Ecchi") {
        Some(Genre::Ecchi)
    } else if str_eq(genre, "Fantasy") {
        Some(Genre::Fantasy)
    } else if str_eq(genre, "Horror") {
        Some(Genre::Horror)
    } else if str_eq(genre, "Mahou Shoujo") {
        Some(Genre::MahouShoujo)
    } else if str_eq(genre, "Mecha") {
        Some(Genre::Mecha)
    } else if str_eq(genre, "Music") {
        Some(Genre::Music)
    } else if str_eq(genre, "Mystery") {
        Some(Genre::Mystery)
    } else if str_eq(genre, "Psychological") {
        Some(Genre::Psychological)
    } else if str_eq(genre, "Romance") {
        Some(Genre::Romance)
    } else if str_eq(genre, "Sci-Fi") {
        Some(Genre::SciFi)
    } else if str_eq(genre, "Slice of Life") {
        Some(Genre::SliceOfLife)
    } else if str_eq(genre, "Sports") {
        Some(Genre::Sports)
    } else if str_eq(genre, "Supernatural") {
        Some(Genre::Supernatural)
    } else if str_eq(genre, "Thriller") {
        Some(Genre::Thriller)
    } else {
        None
    }
}

/// Validates a list of textual genres against the fixed vocabulary; one
/// unrecognized value fails the whole list.
pub fn convert_genres(genres: &Vec<String>) -> (r: Result<Vec<Genre>, ParseError>)
    ensures
        match r {
            Ok(gs) => genres_of(genres.deep_view()) == Some(gs@),
            Err(e) => genres_of(genres.deep_view()) is None && e == ParseError::UnknownGenre,
        },
{
    let ghost names = genres.deep_view();
    let mut out: Vec<Genre> = Vec::new();
    let mut i: usize = 0;
    while i < genres.len()
        invariant
            names == genres.deep_view(),
            i <= genres.len(),
            genres_of(names.subrange(0, i as int)) == Some(out@),
        decreases genres.len() - i,
    {
        proof {
            assert(names.subrange(0, i + 1) =~= names.subrange(0, i as int).push(names[i as int]));
            lemma_genres_of_snoc(names.subrange(0, i as int), names[i as int]);
            assert(names[i as int] == genres@[i as int]@);
        }
        match convert_genre(genres[i].as_str()) {
            Some(g) => {
                out.push(g);
            },
            None => {
                proof {
                    lemma_genres_of_prefix_none(names, i + 1);
                }
                return Err(ParseError::UnknownGenre);
            },
        }
        i += 1;
    }
    proof {
        assert(names.subrange(0, genres@.len() as int) =~= names);
    }
    Ok(out)
}

/// A failing prefix fails the whole list.
proof fn lemma_genres_of_prefix_none(names: Seq<Seq<char>>, n: int)
    requires
        0 <= n <= names.len(),
        genres_of(names.subrange(0, n)) is None,
    ensures
        genres_of(names) is None,
    decreases names.len() - n,
{
    if n < names.len() {
        assert(names.subrange(0, n + 1) =~= names.subrange(0, n).push(names[n]));
        lemma_genres_of_snoc(names.subrange(0, n), names[n]);
        lemma_genres_of_prefix_none(names, n + 1);
    } else {
        assert(names.subrange(0, n) =~= names);
    }
}

} // verus!
