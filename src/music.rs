use vstd::prelude::*;
use crate::text::same_text;

verus! {

/// What is shown where no music player is asked.
pub const NO_MUSIC: &'static str = "N/A (music feature must be used to pull in the mpd dependency)";

/// What is shown for the artist of a song that names none.
pub const UNKNOWN_ARTIST: &'static str = "N/A";

/// The music line where no music player is asked.
pub fn music() -> (r: String)
    ensures
        r@ == NO_MUSIC@,
{
    String::from_str(NO_MUSIC)
}

/// The value of the first tag of `tags` whose key is `key`.
pub open spec fn tag_value(tags: Seq<(String, String)>, key: Seq<char>) -> Option<Seq<char>>
    decreases tags.len(),
{
    if tags.len() == 0 {
        None
    } else if tags[0].0@ == key {
        Some(tags[0].1@)
    } else {
        tag_value(tags.drop_first(), key)
    }
}

/// Looks up the first tag of `tags` whose key is `key`.
pub fn find_tag(tags: &Vec<(String, String)>, key: &str) -> (r: Option<String>)
    ensures
        match r {
            Some(v) => tag_value(tags@, key@) == Some(v@),
            None => tag_value(tags@, key@) is None,
        },
{
    let mut i: usize = 0;
    assert(tags@.subrange(0, tags@.len() as int) == tags@);
    while i < tags.len()
        invariant
            i <= tags@.len(),
            tag_value(tags@, key@) == tag_value(tags@.subrange(i as int, tags@.len() as int), key@),
        decreases tags.len() - i,
    {
        let ghost rest = tags@.subrange(i as int, tags@.len() as int);
        assert(rest[0] == tags@[i as int]);
        if same_text(tags[i].0.as_str(), key) {
            return Some(tags[i].1.clone());
        }
        assert(rest.drop_first() == tags@.subrange(i + 1, tags@.len() as int));
        i += 1;
    }
    None
}

/// The line for the song now playing: `artist - album (date) - title`, with
/// `N/A` for a missing artist; none where the song has no title, album or date.
pub open spec fn song_line(
    title: Option<Seq<char>>,
    artist: Option<Seq<char>>,
    tags: Seq<(String, String)>,
) -> Option<Seq<char>> {
    match (title, tag_value(tags, "Album"@), tag_value(tags, "Date"@)) {
        (Some(t), Some(album), Some(date)) => Some(
            match artist {
                Some(a) => a,
                None => UNKNOWN_ARTIST@,
            } + " - "@ + album + " ("@ + date + ") - "@ + t,
        ),
        _ => None,
    }
}

/// Describes the song now playing, from its title, artist and tags.
pub fn now_playing(title: Option<String>, artist: Option<String>, tags: &Vec<(String, String)>) -> (r:
    Option<String>)
    ensures
        match r {
            Some(v) => song_line(
                match title {
                    Some(t) => Some(t@),
                    None => None,
                },
                match artist {
                    Some(a) => Some(a@),
                    None => None,
                },
                tags@,
            ) == Some(v@),
            None => song_line(
                match title {
                    Some(t) => Some(t@),
                    None => None,
                },
                match artist {
                    Some(a) => Some(a@),
                    None => None,
                },
                tags@,
            ) is None,
        },
{
    let t = match title {
        Some(t) => t,
        None => return None,
    };
    let album = match find_tag(tags, "Album") {
        Some(a) => a,
        None => return None,
    };
    let date = match find_tag(tags, "Date") {
        Some(d) => d,
        None => return None,
    };
    let mut out = match artist {
        Some(a) => a,
        None => String::from_str(UNKNOWN_ARTIST),
    };
    out.append(" - ");
    out.append(album.as_str());
    out.append(" (");
    out.append(date.as_str());
    out.append(") - ");
    out.append(t.as_str());
    Some(out)
}

} // verus!
