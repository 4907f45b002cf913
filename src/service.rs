//! Streaming services and how a URL or short name resolves to one.

use vstd::prelude::*;
use vstd::string::StringSliceAdditionalSpecFns;
use vstd::utf8::*;

use crate::text::{bytes_contain, contains_run, str_eq};

verus! {

/// A streaming service that the remote converter can fetch from.
#[derive(Clone, Copy, Debug, PartialEq, Eq, Structural)]
pub enum LucidaService {
    Qobuz,
    Tidal,
    Soundcloud,
    Deezer,
    AmazonMusic,
    YandexMusic,
}

/// The services in the order in which their domains are tried.
pub open spec fn services() -> Seq<LucidaService> {
    seq![
        LucidaService::Qobuz,
        LucidaService::Tidal,
        LucidaService::Soundcloud,
        LucidaService::Deezer,
        LucidaService::AmazonMusic,
        LucidaService::YandexMusic,
    ]
}

impl LucidaService {
    /// The canonical short name.
    pub open spec fn name_of(self) -> Seq<char> {
        match self {
            LucidaService::Qobuz => "qobuz"@,
            LucidaService::Tidal => "tidal"@,
            LucidaService::Soundcloud => "soundcloud"@,
            LucidaService::Deezer => "deezer"@,
            LucidaService::AmazonMusic => "amazon"@,
            LucidaService::YandexMusic => "yandex"@,
        }
    }

    /// The domain whose presence in a URL identifies the service.
    pub open spec fn domain_of(self) -> Seq<char> {
        match self {
            LucidaService::Qobuz => "qobuz.com"@,
            LucidaService::Tidal => "tidal.com"@,
            LucidaService::Soundcloud => "soundcloud.com"@,
            LucidaService::Deezer => "deezer.com"@,
            LucidaService::AmazonMusic => "music.amazon.com"@,
            LucidaService::YandexMusic => "music.yandex.ru"@,
        }
    }

    /// The input's UTF-8 text holds the service's domain.
    pub open spec fn mentioned_in(self, value: Seq<char>) -> bool {
        contains_run(encode_utf8(value), encode_utf8(self.domain_of()))
    }

    pub fn name(&self) -> (r: &'static str)
        ensures
            r@ == self.name_of(),
    {
        match self {
            LucidaService::Qobuz => "qobuz",
            LucidaService::Tidal => "tidal",
            LucidaService::Soundcloud => "soundcloud",
            LucidaService::Deezer => "deezer",
            LucidaService::AmazonMusic => "amazon",
            LucidaService::YandexMusic => "yandex",
        }
    }

    pub fn domain(&self) -> (r: &'static str)
        ensures
            r@ == self.domain_of(),
    {
        match self {
            LucidaService::Qobuz => "qobuz.com",
            LucidaService::Tidal => "tidal.com",
            LucidaService::Soundcloud => "soundcloud.com",
            LucidaService::Deezer => "deezer.com",
            LucidaService::AmazonMusic => "music.amazon.com",
            LucidaService::YandexMusic => "music.yandex.ru",
        }
    }

    fn at(k: usize) -> (r: LucidaService)
        requires
            k < 6,
        ensures
            r == services()[k as int],
    {
        match k {
            0 => LucidaService::Qobuz,
            1 => LucidaService::Tidal,
            2 => LucidaService::Soundcloud,
            3 => LucidaService::Deezer,
            4 => LucidaService::AmazonMusic,
            _ => LucidaService::YandexMusic,
        }
    }

    /// Resolves a URL or a short name to a service.
    pub fn resolve(value: &str) -> (r: Option<LucidaService>)
        ensures
            r == resolved(value@),
    {
        let bytes = value.as_bytes();
        let mut k: usize = 0;
        while k < 6
            invariant
                k <= 6,
                bytes@ == encode_utf8(value@),
                first_mentioned(value@, 0) == first_mentioned(value@, k as nat),
            decreases 6 - k,
        {
            let s = LucidaService::at(k);
            if bytes_contain(bytes, s.domain().as_bytes()) {
                return Some(s);
            }
            k += 1;
        }
        let mut k: usize = 0;
        while k < 6
            invariant
                k <= 6,
                first_mentioned(value@, 0) is None,
                first_named(value@, 0) == first_named(value@, k as nat),
            decreases 6 - k,
        {
            let s = LucidaService::at(k);
            if str_eq(value, s.name()) {
                return Some(s);
            }
            k += 1;
        }
        None
    }
}

/// The first service, from index `from` on, whose domain the input holds.
pub open spec fn first_mentioned(value: Seq<char>, from: nat) -> Option<LucidaService>
    decreases 6 - from,
{
    if from >= 6 {
        None
    } else if services()[from as int].mentioned_in(value) {
        Some(services()[from as int])
    } else {
        first_mentioned(value, from + 1)
    }
}

/// The first service, from index `from` on, whose short name is the input.
pub open spec fn first_named(value: Seq<char>, from: nat) -> Option<LucidaService>
    decreases 6 - from,
{
    if from >= 6 {
        None
    } else if services()[from as int].name_of() == value {
        Some(services()[from as int])
    } else {
        first_named(value, from + 1)
    }
}

/// Domain matching first, in the order of `services()`; then an exact short name.
pub open spec fn resolved(value: Seq<char>) -> Option<LucidaService> {
    match first_mentioned(value, 0) {
        Some(s) => Some(s),
        None => first_named(value, 0),
    }
}

proof fn lemma_first_mentioned_from(value: Seq<char>, j: int, k: int)
    requires
        0 <= j <= k < 6,
        services()[k].mentioned_in(value),
        forall|i: int| 0 <= i < k ==> !(#[trigger] services()[i]).mentioned_in(value),
    ensures
        first_mentioned(value, j as nat) == Some(services()[k]),
    decreases k - j,
{
    if j < k {
        lemma_first_mentioned_from(value, j + 1, k);
    }
}

/// A URL that holds the domain of a service, and no domain of a service tried
/// before it, resolves to that service.
pub proof fn lemma_resolve_by_domain(value: Seq<char>, k: int)
    requires
        0 <= k < 6,
        services()[k].mentioned_in(value),
        forall|i: int| 0 <= i < k ==> !(#[trigger] services()[i]).mentioned_in(value),
    ensures
        resolved(value) == Some(services()[k]),
{
    lemma_first_mentioned_from(value, 0, k);
}

proof fn lemma_first_mentioned_none(value: Seq<char>, j: int)
    requires
        0 <= j <= 6,
        forall|s: LucidaService| !s.mentioned_in(value),
    ensures
        first_mentioned(value, j as nat) is None,
    decreases 6 - j,
{
    if j < 6 {
        lemma_first_mentioned_none(value, j + 1);
    }
}

proof fn lemma_first_named_none(value: Seq<char>, j: int)
    requires
        0 <= j <= 6,
        forall|s: LucidaService| s.name_of() != value,
    ensures
        first_named(value, j as nat) is None,
    decreases 6 - j,
{
    if j < 6 {
        lemma_first_named_none(value, j + 1);
    }
}

/// An input that holds no service's domain and is no service's short name
/// resolves to no service.
pub proof fn lemma_resolve_unknown(value: Seq<char>)
    requires
        forall|s: LucidaService| !s.mentioned_in(value),
        forall|s: LucidaService| s.name_of() != value,
    ensures
        resolved(value) is None,
{
    lemma_first_mentioned_none(value, 0);
    lemma_first_named_none(value, 0);
}

/// No run of `hay` equals `needle` when `needle` has a byte that `hay` lacks.
proof fn lemma_missing_byte(hay: Seq<u8>, needle: Seq<u8>, p: int)
    requires
        0 <= p < needle.len(),
        forall|i: int| 0 <= i < hay.len() ==> hay[i] != needle[p],
    ensures
        !contains_run(hay, needle),
{
    if contains_run(hay, needle) {
        let i = choose|i: int|
            0 <= i && i + needle.len() <= hay.len() && #[trigger] hay.subrange(i, i + needle.len())
                == needle;
        assert(hay.subrange(i, i + needle.len())[p] == hay[i + p]);
    }
}

proof fn lemma_texts(s: LucidaService)
    ensures
        is_ascii_chars(s.name_of()),
        is_ascii_chars(s.domain_of()),
        forall|i: int| 0 <= i < s.name_of().len() ==> s.name_of()[i] != '.',
        s.domain_of().len() > 5,
        s.domain_of()[s.domain_of().len() - 4] == '.' || s.domain_of()[s.domain_of().len() - 3]
            == '.',
{
    reveal_strlit("qobuz");
    reveal_strlit("tidal");
    reveal_strlit("soundcloud");
    reveal_strlit("deezer");
    reveal_strlit("amazon");
    reveal_strlit("yandex");
    reveal_strlit("qobuz.com");
    reveal_strlit("tidal.com");
    reveal_strlit("soundcloud.com");
    reveal_strlit("deezer.com");
    reveal_strlit("music.amazon.com");
    reveal_strlit("music.yandex.ru");
}

/// No short name holds any service's domain.
proof fn lemma_name_mentions_nothing(s: LucidaService, t: LucidaService)
    ensures
        !t.mentioned_in(s.name_of()),
{
    lemma_texts(s);
    lemma_texts(t);
    let n = s.name_of();
    let d = t.domain_of();
    is_ascii_chars_encode_utf8(n);
    is_ascii_chars_encode_utf8(d);
    let p = if d[d.len() - 4] == '.' {
        d.len() - 4
    } else {
        d.len() - 3
    };
    assert(encode_utf8(d)[p] == 46u8);
    assert forall|i: int| 0 <= i < encode_utf8(n).len() implies encode_utf8(n)[i] != 46u8 by {
        assert(n[i] != '.');
        assert(n[i] as u8 == encode_utf8(n)[i]);
    }
    lemma_missing_byte(encode_utf8(n), encode_utf8(d), p);
}

proof fn lemma_first_named_at(s: LucidaService, j: int, k: int)
    requires
        0 <= j <= k < 6,
        services()[k] == s,
    ensures
        first_named(s.name_of(), j as nat) == Some(s),
    decreases k - j,
{
    reveal_strlit("qobuz");
    reveal_strlit("tidal");
    reveal_strlit("soundcloud");
    reveal_strlit("deezer");
    reveal_strlit("amazon");
    reveal_strlit("yandex");
    if j < k {
        assert(services()[j].name_of()[0] != s.name_of()[0]);
        lemma_first_named_at(s, j + 1, k);
    }
}

/// A service's short name resolves back to that service.
pub proof fn lemma_name_round_trip(s: LucidaService)
    ensures
        resolved(s.name_of()) == Some(s),
{
    assert forall|t: LucidaService| !t.mentioned_in(s.name_of()) by {
        lemma_name_mentions_nothing(s, t);
    }
    lemma_first_mentioned_none(s.name_of(), 0);
    let k: int = match s {
        LucidaService::Qobuz => 0,
        LucidaService::Tidal => 1,
        LucidaService::Soundcloud => 2,
        LucidaService::Deezer => 3,
        LucidaService::AmazonMusic => 4,
        LucidaService::YandexMusic => 5,
    };
    lemma_first_named_at(s, 0, k);
}

} // verus!
