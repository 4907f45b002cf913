use lucida::download::DownloadInfo;
use lucida::model::{Album, Artwork, Track};
use lucida::request::{
    countries_endpoint, download_endpoint, metadata_endpoint, search_endpoint, search_query,
    status_endpoint, stream_endpoint, StreamRequest,
};
use lucida::service::LucidaService;

fn art(url: &str) -> Artwork {
    Artwork { url: url.to_string(), width: 100, height: 100 }
}

fn track(own: Option<Vec<Artwork>>, album: Option<Album>) -> Track {
    Track {
        url: "u".to_string(),
        title: "t".to_string(),
        artists: vec![],
        album,
        cover_artwork: own,
        duration_ms: 1000,
    }
}

#[test]
fn artwork_prefers_track_then_album() {
    let album = Album {
        url: "a".to_string(),
        title: "A".to_string(),
        artists: None,
        cover_artwork: Some(vec![art("album-small"), art("album-large")]),
    };
    let t = track(Some(vec![art("small"), art("large")]), Some(album.clone()));
    assert_eq!(t.artwork(), Some("large".to_string()));
    let t = track(None, Some(album));
    assert_eq!(t.artwork(), Some("album-large".to_string()));
    assert_eq!(track(None, None).artwork(), None);
}

#[test]
fn stream_request_fields() {
    let r = StreamRequest::new("https://tidal.com/track/1", Some("US"), true);
    assert_eq!(r.account.id, "US");
    assert_eq!(r.account.account_type, "country");
    assert_eq!(r.downscale, "original");
    assert!(r.handoff && r.metadata && r.private);
    assert!(!r.upload.enabled);
    assert_eq!(r.upload.service, "pixeldrain");
    assert_eq!(r.url, "https://tidal.com/track/1");
    let r = StreamRequest::new("x", None, false);
    assert_eq!(r.account.id, "auto");
    assert!(!r.metadata);
}

#[test]
fn endpoints_join_base_and_path() {
    let b = "https://katze.lucida.to";
    assert_eq!(stream_endpoint(b), "https://katze.lucida.to/api/fetch/stream/v2");
    assert_eq!(status_endpoint(b, "j1"), "https://katze.lucida.to/api/fetch/request/j1");
    assert_eq!(
        download_endpoint(b, "j1"),
        "https://katze.lucida.to/api/fetch/request/j1/download"
    );
    assert_eq!(countries_endpoint(b), "https://katze.lucida.to/api/countries");
    assert_eq!(search_endpoint(b), "https://katze.lucida.to/api/search");
    assert_eq!(metadata_endpoint(b), "https://katze.lucida.to/api/fetch/metadata");
}

#[test]
fn search_query_pairs() {
    let q = search_query(LucidaService::Deezer, "FR", "daft punk");
    let expected = vec![
        ("query".to_string(), "daft punk".to_string()),
        ("service".to_string(), "deezer".to_string()),
        ("country".to_string(), "FR".to_string()),
    ];
    assert_eq!(q, expected);
}

#[test]
fn disposition_filename_is_extracted() {
    let info = DownloadInfo::from_headers(
        Some("audio/flac".to_string()),
        Some("attachment; filename=\"My Song.flac\""),
    );
    assert_eq!(info.filename, Some("My Song.flac".to_string()));
    assert_eq!(info.content_type, Some("audio/flac".to_string()));
}

#[test]
fn missing_disposition_gives_no_filename() {
    let info = DownloadInfo::from_headers(None, None);
    assert_eq!(info.filename, None);
    assert_eq!(info.content_type, None);
    let info = DownloadInfo::from_headers(None, Some("attachment"));
    assert_eq!(info.filename, None);
}
