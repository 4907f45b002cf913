//! Messages of the converter's API.

use vstd::prelude::*;

verus! {

/// Reply to a stream request.
#[derive(Clone, Debug)]
pub struct StreamResponse {
    pub success: bool,
    pub error: Option<String>,
    pub handoff: Option<String>,
    pub name: Option<String>,
}

/// Reply to a job status query.
#[derive(Clone, Debug)]
pub struct StatusResponse {
    pub success: bool,
    pub status: String,
    pub message: String,
}

#[derive(Clone, Debug)]
pub struct SearchResponse {
    pub success: bool,
    pub results: SearchResults,
}

/// Reply to a country listing, in the server's order.
#[derive(Clone, Debug)]
pub struct CountriesResponse {
    pub success: bool,
    pub countries: Vec<Country>,
}

#[derive(Clone, Debug)]
pub struct Country {
    pub code: String,
    pub label: String,
}

#[derive(Clone, Debug)]
pub struct SearchResults {
    pub albums: Vec<Album>,
    pub tracks: Vec<Track>,
}

#[derive(Clone, Debug)]
pub struct Artwork {
    pub url: String,
    pub width: usize,
    pub height: usize,
}

#[derive(Clone, Debug)]
pub struct Album {
    pub url: String,
    pub title: String,
    pub artists: Option<Vec<Artist>>,
    pub cover_artwork: Option<Vec<Artwork>>,
}

#[derive(Clone, Debug)]
pub struct Track {
    pub url: String,
    pub title: String,
    pub artists: Vec<Artist>,
    pub album: Option<Album>,
    pub cover_artwork: Option<Vec<Artwork>>,
    pub duration_ms: usize,
}

#[derive(Clone, Debug)]
pub struct Artist {
    pub name: String,
}

#[derive(Clone, Debug)]
pub struct MetadataResponse {
    pub success: bool,
    pub title: String,
    pub tracks: Vec<Track>,
}

/// The URL of the last, largest, entry of an artwork list.
pub open spec fn last_url(list: Seq<Artwork>) -> Seq<char> {
    list.last().url@
}

impl Track {
    /// The artwork list that `artwork` reads: the track's own, else its album's.
    pub open spec fn artwork_list(&self) -> Option<Seq<Artwork>> {
        match self.cover_artwork {
            Some(list) => Some(list@),
            None => match self.album {
                Some(album) => match album.cover_artwork {
                    Some(list) => Some(list@),
                    None => None,
                },
                None => None,
            },
        }
    }

    pub fn artwork(&self) -> (r: Option<String>)
        requires
            self.artwork_list() matches Some(list) ==> list.len() > 0,
        ensures
            match self.artwork_list() {
                Some(list) => r matches Some(u) && u@ == last_url(list),
                None => r is None,
            },
    {
        match &self.cover_artwork {
            Some(list) => Some(list[list.len() - 1].url.clone()),
            None => match &self.album {
                Some(album) => match &album.cover_artwork {
                    Some(list) => Some(list[list.len() - 1].url.clone()),
                    None => None,
                },
                None => None,
            },
        }
    }
}

} // verus!
