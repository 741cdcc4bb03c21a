//! Artwork attached to a library item. The payload is either inline pixel
//! data, a URI, or a filesystem path.

use vstd::prelude::*;

verus! {

#[derive(Debug)]
pub enum ArtworkType {
    SquareCover,
    CaseCover,
    SteamCover,
    Logo,
    LandscapeCover,
    Background,
    Misc(String),
}

impl Clone for ArtworkType {
    fn clone(&self) -> (r: Self)
        ensures
            r == *self,
    {
        match self {
            ArtworkType::SquareCover => ArtworkType::SquareCover,
            ArtworkType::CaseCover => ArtworkType::CaseCover,
            ArtworkType::SteamCover => ArtworkType::SteamCover,
            ArtworkType::Logo => ArtworkType::Logo,
            ArtworkType::LandscapeCover => ArtworkType::LandscapeCover,
            ArtworkType::Background => ArtworkType::Background,
            ArtworkType::Misc(s) => ArtworkType::Misc(s.clone()),
        }
    }
}

/// Inline data carries (bytes, has_alpha, bits_per_sample, width, height,
/// rowstride).
#[derive(Debug)]
pub enum ArtworkData {
    Data(Vec<u8>, bool, i32, i32, i32, i32),
    Uri(String),
    Path(String),
}

/// The two payloads describe the same artwork data: equal inline bytes, or
/// equal locations.
pub open spec fn artwork_data_matches(a: ArtworkData, b: ArtworkData) -> bool {
    match (a, b) {
        (
            ArtworkData::Data(d1, a1, b1, w1, h1, r1),
            ArtworkData::Data(d2, a2, b2, w2, h2, r2),
        ) => d1@ == d2@ && a1 == a2 && b1 == b2 && w1 == w2 && h1 == h2 && r1 == r2,
        (ArtworkData::Uri(u1), ArtworkData::Uri(u2)) => u1 == u2,
        (ArtworkData::Path(p1), ArtworkData::Path(p2)) => p1 == p2,
        _ => false,
    }
}

impl Clone for ArtworkData {
    fn clone(&self) -> (r: Self)
        ensures
            artwork_data_matches(*self, r),
    {
        match self {
            ArtworkData::Data(d, a, b, w, h, rs) => {
                let mut bytes: Vec<u8> = Vec::new();
                let n = d.len();
                for i in 0..n
                    invariant
                        n == d@.len(),
                        bytes@ == d@.subrange(0, i as int),
                {
                    bytes.push(d[i]);
                    proof {
                        assert(bytes@ =~= d@.subrange(0, i + 1));
                    }
                }
                proof {
                    assert(bytes@ =~= d@);
                }
                ArtworkData::Data(bytes, *a, *b, *w, *h, *rs)
            },
            ArtworkData::Uri(u) => ArtworkData::Uri(u.clone()),
            ArtworkData::Path(p) => ArtworkData::Path(p.clone()),
        }
    }
}

#[derive(Debug)]
pub struct Artwork {
    pub uuid: String,
    pub kind: ArtworkType,
    pub mime: String,
    pub data: ArtworkData,
}

/// The two records describe the same artwork.
pub open spec fn artwork_matches(a: Artwork, b: Artwork) -> bool {
    &&& a.uuid == b.uuid
    &&& a.kind == b.kind
    &&& a.mime == b.mime
    &&& artwork_data_matches(a.data, b.data)
}

impl Clone for Artwork {
    fn clone(&self) -> (r: Self)
        ensures
            artwork_matches(*self, r),
    {
        Artwork {
            uuid: self.uuid.clone(),
            kind: self.kind.clone(),
            mime: self.mime.clone(),
            data: self.data.clone(),
        }
    }
}

} // verus!
