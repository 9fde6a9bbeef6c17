use am_presence::format::{format_duration, format_duration_plain};
use am_presence::music::{
    artwork_url, AppleMusicData, AppleMusicDataResults, AppleMusicDataResultsSong,
    AppleMusicDataResultsSongData, AppleMusicDataResultsSongDataAttributes,
    AppleMusicDataResultsSongDataAttributesArtwork, AppleMusicDataResultsSongDataRelationships,
    AppleMusicDataResultsSongDataRelationshipsArtists,
    AppleMusicDataResultsSongDataRelationshipsArtistsData,
    AppleMusicDataResultsSongDataRelationshipsArtistsDataAttributes,
    AppleMusicDataResultsSongDataRelationshipsArtistsDataAttributesArtwork, Metadata, PlayerState,
};

#[test]
fn plain_durations() {
    assert_eq!(format_duration_plain(45), "45s");
    assert_eq!(format_duration_plain(60), "60s");
    assert_eq!(format_duration_plain(61), "1m1s");
    assert_eq!(format_duration_plain(3600), "60m0s");
    assert_eq!(format_duration_plain(3725), "1h2m5s");
    assert_eq!(format_duration_plain(3601), "1h0m1s");
}

#[test]
fn styled_durations() {
    let dim = |s: &str| format!("\x1b[2m{s}\x1b[0m");
    let cyan = |s: &str| format!("\x1b[36m{s}\x1b[39m");
    assert_eq!(format_duration(5, false), format!("5{}", dim("s")));
    assert_eq!(format_duration(65, false), format!("1{}5{}", dim("m"), dim("s")));
    assert_eq!(
        format_duration(3661, false),
        format!("{}{}1{}1{}", cyan("1"), dim(&cyan("h")), dim("m"), dim("s"))
    );
    assert_eq!(
        format_duration(3661, true),
        format!("1{}{}{}{}{}", dim("h"), cyan("1"), dim(&cyan("m")), cyan("1"), dim(&cyan("s")))
    );
}

#[test]
fn player_states() {
    assert_eq!(PlayerState::parse("playing"), PlayerState::Playing);
    assert_eq!(PlayerState::parse("fast forwarding"), PlayerState::Forwarding);
    assert_eq!(PlayerState::parse("stopped"), PlayerState::Stopped);
    assert_eq!(PlayerState::parse("paused"), PlayerState::Paused);
    assert_eq!(PlayerState::parse("rewinding"), PlayerState::Rewinding);
    assert_eq!(PlayerState::parse("Playing"), PlayerState::Unknown);
    assert_eq!(PlayerState::parse(""), PlayerState::Unknown);
    assert_eq!(PlayerState::Forwarding.name(), "fast forwarding");
    assert_eq!(PlayerState::Unknown.to_icon(), "?");
    assert_eq!(PlayerState::Playing.to_icon(), "\u{f04b}");
    for s in [
        PlayerState::Stopped,
        PlayerState::Playing,
        PlayerState::Paused,
        PlayerState::Forwarding,
        PlayerState::Rewinding,
    ] {
        assert_eq!(PlayerState::parse(&s.name()), s);
    }
}

fn song(id: &str, artists: Vec<&str>) -> AppleMusicDataResultsSongData {
    AppleMusicDataResultsSongData {
        id: id.to_string(),
        attributes: AppleMusicDataResultsSongDataAttributes {
            url: format!("https://music.apple.com/song/{id}"),
            artwork: AppleMusicDataResultsSongDataAttributesArtwork {
                url: "https://img/{w}x{h}bb.jpg".to_string(),
            },
        },
        relationships: AppleMusicDataResultsSongDataRelationships {
            artists: AppleMusicDataResultsSongDataRelationshipsArtists {
                data: artists
                    .into_iter()
                    .map(|u| AppleMusicDataResultsSongDataRelationshipsArtistsData {
                        attributes: AppleMusicDataResultsSongDataRelationshipsArtistsDataAttributes {
                            artwork:
                                AppleMusicDataResultsSongDataRelationshipsArtistsDataAttributesArtwork {
                                    url: u.to_string(),
                                },
                        },
                    })
                    .collect(),
            },
        },
    }
}

fn response(songs: Vec<AppleMusicDataResultsSongData>) -> AppleMusicData {
    AppleMusicData { results: AppleMusicDataResults { song: AppleMusicDataResultsSong { data: songs } } }
}

#[test]
fn metadata_from_first_song() {
    let data = response(vec![song("42", vec!["https://a/{w}x{h}.png"]), song("7", vec![])]);
    let m = Metadata::from_search(&data).unwrap();
    assert_eq!(m.album_artwork, "https://img/512x512bb.jpg");
    assert_eq!(m.artist_artwork.as_deref(), Some("https://a/512x512.png"));
    assert_eq!(m.share_url, "https://music.apple.com/song/42");
    assert_eq!(m.song_link, "https://song.link/i/42");
}

#[test]
fn metadata_without_artist_or_song() {
    let m = Metadata::from_search(&response(vec![song("7", vec![])])).unwrap();
    assert_eq!(m.artist_artwork, None);
    assert!(Metadata::from_search(&response(vec![])).is_none());
    assert_eq!(artwork_url("x{w}x{h}y{w}x{h}"), "x512x512y512x512");
}
