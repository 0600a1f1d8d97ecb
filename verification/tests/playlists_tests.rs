use djbot::lyrics_api::{first_song, Data};
use djbot::playlists::{Artists, Items, SpotifyPlaylistResponse, Track, YtPlayListError, YtPlayListResponse};
use djbot::yt_playlist_stream::{PlayListError, PlayListResponse};

#[test]
fn spotify_search_terms_join_name_and_first_artist() {
    let resp = SpotifyPlaylistResponse {
        items: vec![
            Items {
                track: Track {
                    name: String::from("Song One"),
                    artists: vec![
                        Artists { name: String::from("First Artist") },
                        Artists { name: String::from("Second Artist") },
                    ],
                },
            },
            Items {
                track: Track {
                    name: String::from("Song Two"),
                    artists: vec![Artists { name: String::from("Solo") }],
                },
            },
        ],
    };
    let terms = djbot::playlists::spotify_search_terms(&resp);
    assert_eq!(terms, vec![
        String::from("Song One First Artist"),
        String::from("Song Two Solo"),
    ]);
}

#[test]
fn first_song_picks_the_first_entry() {
    assert!(first_song(&Vec::new()).is_none());
    let results = vec![
        Data {
            lyrics: String::from("la la"),
            name: String::from("A"),
            artist: String::from("X"),
        },
        Data {
            lyrics: String::from("na na"),
            name: String::from("B"),
            artist: String::from("Y"),
        },
    ];
    let first = first_song(&results).unwrap();
    assert_eq!(first.name, "A");
    assert_eq!(first.artist, "X");
    assert_eq!(first.lyrics, "la la");
}

#[test]
fn playlist_errors_carry_stderr() {
    let e = YtPlayListError::ListOfUrlsError(vec![1, 2, 3]);
    assert_eq!(e.stderr(), &vec![1, 2, 3]);
    let e = PlayListError::ListOfUrlsError(vec![9]);
    assert_eq!(e.stderr(), &vec![9]);
    let r = YtPlayListResponse { title: String::from("t") };
    assert_eq!(r.title, "t");
    let r = PlayListResponse { url: String::from("u") };
    assert_eq!(r.url, "u");
}
