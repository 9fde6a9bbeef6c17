//! What the media player reports, and the song metadata fetched for it.
use crate::activity::opt_view;
use vstd::prelude::*;
use vstd::string::StringExecFns;
use vstd::utf8::{encode_utf8, encode_utf8_decode_utf8};

verus! {

/// The playback state of the player.
#[derive(Clone, Copy, Debug, PartialEq, Eq, Structural)]
pub enum PlayerState {
    Stopped,
    Playing,
    Paused,
    Forwarding,
    Rewinding,
    Unknown,
}

/// The Nerd Font symbol of a state.
pub open spec fn icon_text(s: PlayerState) -> Seq<char> {
    match s {
        PlayerState::Stopped => seq!['\u{f04d}'],
        PlayerState::Playing => seq!['\u{f04b}'],
        PlayerState::Paused => seq!['\u{f04c}'],
        PlayerState::Forwarding => seq!['\u{f04e}'],
        PlayerState::Rewinding => seq!['\u{f04a}'],
        PlayerState::Unknown => seq!['?'],
    }
}

/// The name under which the player reports a state.
pub open spec fn state_name(s: PlayerState) -> Seq<char> {
    match s {
        PlayerState::Stopped => "stopped"@,
        PlayerState::Playing => "playing"@,
        PlayerState::Paused => "paused"@,
        PlayerState::Forwarding => "fast forwarding"@,
        PlayerState::Rewinding => "rewinding"@,
        PlayerState::Unknown => "unknown"@,
    }
}

/// The state that the player's name `t` stands for; any other text is `Unknown`.
pub open spec fn parse_state(t: Seq<char>) -> PlayerState {
    if t == "stopped"@ {
        PlayerState::Stopped
    } else if t == "playing"@ {
        PlayerState::Playing
    } else if t == "paused"@ {
        PlayerState::Paused
    } else if t == "fast forwarding"@ {
        PlayerState::Forwarding
    } else if t == "rewinding"@ {
        PlayerState::Rewinding
    } else {
        PlayerState::Unknown
    }
}

/// Whether two texts are equal.
fn same_text(a: &str, b: &str) -> (r: bool)
    ensures
        r == (a@ == b@),
{
    let x = a.as_bytes();
    let y = b.as_bytes();
    proof {
        encode_utf8_decode_utf8(a@);
        encode_utf8_decode_utf8(b@);
    }
    if x.len() != y.len() {
        return false;
    }
    let mut i: usize = 0;
    while i < x.len()
        invariant
            x@ == encode_utf8(a@),
            y@ == encode_utf8(b@),
            x@.len() == y@.len(),
            i <= x@.len(),
            forall|j: int| 0 <= j < i ==> x@[j] == y@[j],
        decreases x@.len() - i,
    {
        if x[i] != y[i] {
            return false;
        }
        i = i + 1;
    }
    assert(x@ =~= y@);
    true
}

impl PlayerState {
    /// The Nerd Font symbol of this state.
    pub fn to_icon(self) -> (r: String)
        ensures
            r@ == icon_text(self),
    {
        proof {
            reveal_strlit("\u{f04d}");
            reveal_strlit("\u{f04b}");
            reveal_strlit("\u{f04c}");
            reveal_strlit("\u{f04e}");
            reveal_strlit("\u{f04a}");
            reveal_strlit("?");
        }
        let r = match self {
            PlayerState::Stopped => String::from_str("\u{f04d}"),
            PlayerState::Playing => String::from_str("\u{f04b}"),
            PlayerState::Paused => String::from_str("\u{f04c}"),
            PlayerState::Forwarding => String::from_str("\u{f04e}"),
            PlayerState::Rewinding => String::from_str("\u{f04a}"),
            PlayerState::Unknown => String::from_str("?"),
        };
        assert(r@ =~= icon_text(self));
        r
    }

    /// The name under which the player reports this state.
    pub fn name(self) -> (r: String)
        ensures
            r@ == state_name(self),
    {
        match self {
            PlayerState::Stopped => String::from_str("stopped"),
            PlayerState::Playing => String::from_str("playing"),
            PlayerState::Paused => String::from_str("paused"),
            PlayerState::Forwarding => String::from_str("fast forwarding"),
            PlayerState::Rewinding => String::from_str("rewinding"),
            PlayerState::Unknown => String::from_str("unknown"),
        }
    }

    /// The state named `s` by the player; an unrecognised name is `Unknown`.
    pub fn parse(s: &str) -> (r: PlayerState)
        ensures
            r == parse_state(s@),
    {
        if same_text(s, "stopped") {
            PlayerState::Stopped
        } else if same_text(s, "playing") {
            PlayerState::Playing
        } else if same_text(s, "paused") {
            PlayerState::Paused
        } else if same_text(s, "fast forwarding") {
            PlayerState::Forwarding
        } else if same_text(s, "rewinding") {
            PlayerState::Rewinding
        } else {
            PlayerState::Unknown
        }
    }
}

/// The playlist being played, and its total duration in seconds.
#[derive(Clone, Debug)]
pub struct Playlist {
    pub name: String,
    pub duration: i32,
}

/// What the `now` command shows, and how.
#[derive(Clone, Debug)]
pub struct NowOptions {
    /// Keep a full-screen view up to date.
    pub watch: bool,
    /// Show state names instead of Nerd Font symbols.
    pub no_nerd_fonts: bool,
    /// The width of the progress bar.
    pub bar_width: Option<i32>,
}

/// Links and artwork for a song.
#[derive(Debug)]
pub struct Metadata {
    pub album_artwork: String,
    pub artist_artwork: Option<String>,
    pub share_url: String,
    pub song_link: String,
}

/// A catalogue search's response, reduced to what is read of it.
pub struct AppleMusicData {
    pub results: AppleMusicDataResults,
}

pub struct AppleMusicDataResults {
    pub song: AppleMusicDataResultsSong,
}

pub struct AppleMusicDataResultsSong {
    pub data: Vec<AppleMusicDataResultsSongData>,
}

pub struct AppleMusicDataResultsSongData {
    pub id: String,
    pub attributes: AppleMusicDataResultsSongDataAttributes,
    pub relationships: AppleMusicDataResultsSongDataRelationships,
}

pub struct AppleMusicDataResultsSongDataAttributes {
    pub url: String,
    pub artwork: AppleMusicDataResultsSongDataAttributesArtwork,
}

pub struct AppleMusicDataResultsSongDataAttributesArtwork {
    pub url: String,
}

pub struct AppleMusicDataResultsSongDataRelationships {
    pub artists: AppleMusicDataResultsSongDataRelationshipsArtists,
}

pub struct AppleMusicDataResultsSongDataRelationshipsArtists {
    pub data: Vec<AppleMusicDataResultsSongDataRelationshipsArtistsData>,
}

pub struct AppleMusicDataResultsSongDataRelationshipsArtistsData {
    pub attributes: AppleMusicDataResultsSongDataRelationshipsArtistsDataAttributes,
}

pub struct AppleMusicDataResultsSongDataRelationshipsArtistsDataAttributes {
    pub artwork: AppleMusicDataResultsSongDataRelationshipsArtistsDataAttributesArtwork,
}

pub struct AppleMusicDataResultsSongDataRelationshipsArtistsDataAttributesArtwork {
    pub url: String,
}

/// `s` with the matches of the non-empty `from` replaced by `to`: matches are
/// taken from the left and do not overlap.
pub open spec fn replaced(s: Seq<char>, from: Seq<char>, to: Seq<char>) -> Seq<char>
    decreases s.len(),
{
    if s.len() == 0 || from.len() == 0 {
        s
    } else if from.len() <= s.len() && s.subrange(0, from.len() as int) == from {
        to + replaced(s.subrange(from.len() as int, s.len() as int), from, to)
    } else {
        seq![s[0]] + replaced(s.drop_first(), from, to)
    }
}

/// Relies on `str::replace`: a new string in which the matches of `from`,
/// found from the left without overlap, are replaced by `to`.
#[verifier::external_body]
fn replace_all(s: &str, from: &str, to: &str) -> (r: String)
    requires
        from@.len() > 0,
    ensures
        r@ == replaced(s@, from@, to@),
{
    s.replace(from, to)
}

/// An artwork url template with the size filled in as 512 by 512.
pub open spec fn artwork_512(template: Seq<char>) -> Seq<char> {
    replaced(template, "{w}x{h}"@, "512x512"@)
}

/// The song.link page of a catalogue id.
pub open spec fn song_link_of(id: Seq<char>) -> Seq<char> {
    "https://song.link/i/"@ + id
}

/// An artwork url template with the size filled in as 512 by 512.
pub fn artwork_url(template: &str) -> (r: String)
    ensures
        r@ == artwork_512(template@),
{
    proof {
        reveal_strlit("{w}x{h}");
    }
    replace_all(template, "{w}x{h}", "512x512")
}

impl Metadata {
    /// The metadata of the first song of a search response: its album
    /// artwork, the artwork of its first artist if there is one, its share
    /// url and its song.link page; nothing when the response has no song.
    pub fn from_search(data: &AppleMusicData) -> (r: Option<Metadata>)
        ensures
            r is Some <==> data.results.song.data@.len() > 0,
            r matches Some(m) ==> ({
                let song = data.results.song.data@[0];
                let artists = song.relationships.artists.data@;
                &&& m.album_artwork@ == artwork_512(song.attributes.artwork.url@)
                &&& opt_view(m.artist_artwork) == if artists.len() > 0 {
                    Some(artwork_512(artists[0].attributes.artwork.url@))
                } else {
                    None::<Seq<char>>
                }
                &&& m.share_url@ == song.attributes.url@
                &&& m.song_link@ == song_link_of(song.id@)
            }),
    {
        if data.results.song.data.len() == 0 {
            return None;
        }
        let song = &data.results.song.data[0];
        let album_artwork = artwork_url(song.attributes.artwork.url.as_str());
        let artists = &song.relationships.artists.data;
        let artist_artwork = if artists.len() > 0 {
            Some(artwork_url(artists[0].attributes.artwork.url.as_str()))
        } else {
            None
        };
        let mut song_link = String::from_str("https://song.link/i/");
        song_link.append(song.id.as_str());
        Some(
            Metadata {
                album_artwork,
                artist_artwork,
                share_url: song.attributes.url.clone(),
                song_link,
            },
        )
    }
}

} // verus!
