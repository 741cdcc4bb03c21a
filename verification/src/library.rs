//! The shared vocabulary of the library: item kinds, status values, item
//! details, and the frontend-facing projections of an aggregated item.

pub mod age_rating;
pub mod artwork;
pub mod credits;
pub mod item_meta;
pub mod preferences;

use crate::smap::StringMap;
use vstd::prelude::*;

verus! {

#[derive(Debug, Clone, Copy, PartialEq, Eq, Structural)]
pub enum LibraryItemKind {
    Game,
    App,
}

/// One advisory status of an (item, provider) pair. `Running` carries the
/// child-process pid when one is known; two `Running` values with different
/// pids are distinct members of a status set.
#[derive(Debug, Clone, Copy, PartialEq, Eq, Structural)]
pub enum LibraryItemStatus {
    Running(Option<u32>),
    Closing,
    Updatable,
    Updating,
    Installed,
}

#[derive(Debug)]
pub struct LibraryItemDetails {
    pub age_rating: age_rating::AgeRating,
    pub artworks: Vec<artwork::Artwork>,
    pub description: String,
    pub genre: Vec<item_meta::Genre>,
    pub game_modes: Vec<item_meta::GameModes>,
    pub credits: credits::Credits,
    pub controller_support: Vec<item_meta::InputType>,
}

/// The two records carry the same details.
pub open spec fn details_matches(a: LibraryItemDetails, b: LibraryItemDetails) -> bool {
    &&& a.age_rating == b.age_rating
    &&& a.description == b.description
    &&& a.genre@ == b.genre@
    &&& a.game_modes@ == b.game_modes@
    &&& a.controller_support@ == b.controller_support@
    &&& credits::credits_matches(a.credits, b.credits)
    &&& a.artworks@.len() == b.artworks@.len()
    &&& forall|i: int|
        0 <= i < a.artworks@.len() ==> artwork::artwork_matches(a.artworks@[i], b.artworks@[i])
}

impl Clone for LibraryItemDetails {
    fn clone(&self) -> (r: Self)
        ensures
            details_matches(*self, r),
    {
        let genre = self.genre.clone();
        let game_modes = self.game_modes.clone();
        let controller_support = self.controller_support.clone();
        let artworks = self.artworks.clone();
        proof {
            assert(genre@ =~= self.genre@);
            assert(game_modes@ =~= self.game_modes@);
            assert(controller_support@ =~= self.controller_support@);
            assert forall|i: int| 0 <= i < self.artworks@.len() implies artwork::artwork_matches(
                self.artworks@[i],
                artworks@[i],
            ) by {
                assert(cloned::<artwork::Artwork>(self.artworks@[i], artworks@[i]));
            }
        }
        LibraryItemDetails {
            age_rating: self.age_rating,
            artworks,
            description: self.description.clone(),
            genre,
            game_modes,
            credits: self.credits.clone(),
            controller_support,
        }
    }
}

/// An item as a plugin publishes it.
#[derive(Debug)]
pub struct LibraryItemModule {
    pub uuid: String,
    pub name: String,
    pub kind: LibraryItemKind,
    pub details: LibraryItemDetails,
    pub status: Vec<LibraryItemStatus>,
}

/// The compact frontend-facing projection of an aggregated item.
#[derive(Debug)]
pub struct LibraryItemFrontend {
    pub uuid: String,
    pub name: String,
    pub kind: LibraryItemKind,
    pub active_provider: LibraryProvider,
    pub providers: StringMap<LibraryProvider>,
}

/// One provider's view of an item, as shown to frontends.
#[derive(Debug)]
pub struct LibraryProvider {
    pub uuid: String,
    pub name: String,
    pub icon: Option<String>,
    pub stati: Vec<LibraryItemStatus>,
}

impl LibraryProvider {
    pub fn new(uuid: String, name: String, icon: Option<String>, stati: Vec<
        LibraryItemStatus,
    >) -> (r: Self)
        ensures
            r.uuid == uuid,
            r.name == name,
            r.icon == icon,
            r.stati == stati,
    {
        Self { uuid, name, icon, stati }
    }
}

impl PartialEq for LibraryProvider {
    /// Two provider records denote the same provider when their ids agree.
    fn eq(&self, other: &Self) -> (r: bool) {
        self.uuid == other.uuid
    }
}

impl vstd::std_specs::cmp::PartialEqSpecImpl for LibraryProvider {
    open spec fn obeys_eq_spec() -> bool {
        true
    }

    open spec fn eq_spec(&self, other: &Self) -> bool {
        self.uuid@ == other.uuid@
    }
}

/// The full frontend-facing projection: the compact one plus the details.
#[derive(Debug)]
pub struct LibraryItemFrontendDetails {
    pub uuid: String,
    pub name: String,
    pub kind: LibraryItemKind,
    pub details: LibraryItemDetails,
    pub active_provider: LibraryProvider,
    pub providers: StringMap<LibraryProvider>,
}

/// The per-item methods a frontend may request. Only the first three are
/// implemented; the rest are accepted and reported as unimplemented.
#[derive(Debug)]
pub enum LibraryItemProviderMethods {
    Launch(String),
    LaunchViaProvider(String, String),
    ChangeSelectedProvider(String, String),
    Close(String),
    GetPid(String),
    Kill(String),
    Update(String),
    Uninstall(String),
}

} // verus!
