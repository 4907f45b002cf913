use lucida::service::LucidaService;

#[test]
fn resolves_each_domain() {
    let cases = [
        ("https://www.qobuz.com/us-en/album/x/123", LucidaService::Qobuz),
        ("https://tidal.com/browse/track/1", LucidaService::Tidal),
        ("https://soundcloud.com/artist/song", LucidaService::Soundcloud),
        ("https://www.deezer.com/track/42", LucidaService::Deezer),
        ("https://music.amazon.com/albums/B0", LucidaService::AmazonMusic),
        ("https://music.yandex.ru/album/1/track/2", LucidaService::YandexMusic),
    ];
    for (url, expected) in cases {
        assert_eq!(LucidaService::resolve(url), Some(expected));
    }
}

#[test]
fn unknown_url_resolves_to_nothing() {
    assert_eq!(LucidaService::resolve("https://open.spotify.com/track/1"), None);
    assert_eq!(LucidaService::resolve(""), None);
    assert_eq!(LucidaService::resolve("Qobuz"), None);
    assert_eq!(LucidaService::resolve("amazon.com"), None);
}

#[test]
fn first_domain_in_order_wins() {
    assert_eq!(
        LucidaService::resolve("https://tidal.com/?from=qobuz.com"),
        Some(LucidaService::Qobuz)
    );
}

#[test]
fn short_names_round_trip() {
    let all = [
        LucidaService::Qobuz,
        LucidaService::Tidal,
        LucidaService::Soundcloud,
        LucidaService::Deezer,
        LucidaService::AmazonMusic,
        LucidaService::YandexMusic,
    ];
    for s in all {
        assert_eq!(LucidaService::resolve(s.name()), Some(s));
    }
    assert_eq!(LucidaService::AmazonMusic.name(), "amazon");
    assert_eq!(LucidaService::YandexMusic.domain(), "music.yandex.ru");
}
