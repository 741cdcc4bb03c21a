use utopia_core::errors::{
    FrontendNotAvailableError, LibraryItemNotAvailableError, ModuleABIError,
    ModuleNotAvailableError, ProvModuleNotAvailableError, UnkownUtopiaError,
};
use utopia_core::index::{Library, LibraryItem, UpdStateAction};
use utopia_core::library::age_rating::AgeRating;
use utopia_core::library::credits::Credits;
use utopia_core::library::{
    LibraryItemDetails, LibraryItemKind, LibraryItemModule, LibraryItemStatus,
};
use utopia_core::module::ModuleInfo;
use utopia_core::modules::{module_interface_version, ModuleManager};
use utopia_core::smap::StringMap;

fn sample_details() -> LibraryItemDetails {
    LibraryItemDetails {
        age_rating: AgeRating { pegi_rating: None, esrb_rating: None, fsk_rating: None },
        artworks: Vec::new(),
        description: String::from("described"),
        genre: Vec::new(),
        game_modes: Vec::new(),
        credits: Credits {
            developer: String::from("dev"),
            publisher: None,
            director: None,
            other: StringMap::new(),
        },
        controller_support: Vec::new(),
    }
}

fn sample_item(uuid: &str, status: Vec<LibraryItemStatus>) -> LibraryItemModule {
    LibraryItemModule {
        uuid: String::from(uuid),
        name: String::from("Game"),
        kind: LibraryItemKind::Game,
        details: sample_details(),
        status,
    }
}

fn manager_with(ids: &[&str]) -> ModuleManager {
    let mut mods = ModuleManager::new();
    for id in ids {
        mods.register_module(
            String::from(*id),
            ModuleInfo {
                name: format!("{} plugin", id),
                url: None,
                developer: String::from("dev"),
                developer_url: None,
                description: None,
                icon: None,
            },
            module_interface_version(),
            module_interface_version(),
        )
        .unwrap();
    }
    mods
}

#[test]
fn add_then_remove_status_is_noop() {
    let mut item = LibraryItem::new(
        String::from("A"),
        String::from("A plugin"),
        None,
        sample_item("g1", vec![LibraryItemStatus::Installed]),
    );
    let before = item.providers.get(&String::from("A")).unwrap().status.clone();
    item.update_state(
        String::from("A"),
        UpdStateAction::Add,
        LibraryItemStatus::Updating,
    )
    .unwrap();
    item.update_state(
        String::from("A"),
        UpdStateAction::Remove,
        LibraryItemStatus::Updating,
    )
    .unwrap();
    let after = item.providers.get(&String::from("A")).unwrap().status.clone();
    assert_eq!(before, after);
}

#[test]
fn add_is_idempotent() {
    let mut item = LibraryItem::new(
        String::from("A"),
        String::from("A plugin"),
        None,
        sample_item("g1", vec![LibraryItemStatus::Installed]),
    );
    item.update_state(
        String::from("A"),
        UpdStateAction::Add,
        LibraryItemStatus::Installed,
    )
    .unwrap();
    let stati = &item.providers.get(&String::from("A")).unwrap().status;
    assert_eq!(*stati, vec![LibraryItemStatus::Installed]);
}

#[test]
fn remove_absent_is_idempotent() {
    let mut item = LibraryItem::new(
        String::from("A"),
        String::from("A plugin"),
        None,
        sample_item("g1", vec![LibraryItemStatus::Installed]),
    );
    item.update_state(
        String::from("A"),
        UpdStateAction::Remove,
        LibraryItemStatus::Closing,
    )
    .unwrap();
    let stati = &item.providers.get(&String::from("A")).unwrap().status;
    assert_eq!(*stati, vec![LibraryItemStatus::Installed]);
}

#[test]
fn duplicate_reported_statuses_are_deduplicated() {
    let item = LibraryItem::new(
        String::from("A"),
        String::from("A plugin"),
        None,
        sample_item(
            "g1",
            vec![
                LibraryItemStatus::Installed,
                LibraryItemStatus::Installed,
                LibraryItemStatus::Updatable,
            ],
        ),
    );
    let stati = &item.providers.get(&String::from("A")).unwrap().status;
    assert_eq!(
        *stati,
        vec![LibraryItemStatus::Installed, LibraryItemStatus::Updatable]
    );
}

#[test]
fn running_with_distinct_pids_are_distinct_members() {
    let mut item = LibraryItem::new(
        String::from("A"),
        String::from("A plugin"),
        None,
        sample_item("g1", vec![]),
    );
    item.update_state(
        String::from("A"),
        UpdStateAction::Add,
        LibraryItemStatus::Running(Some(1)),
    )
    .unwrap();
    item.update_state(
        String::from("A"),
        UpdStateAction::Add,
        LibraryItemStatus::Running(Some(2)),
    )
    .unwrap();
    let stati = &item.providers.get(&String::from("A")).unwrap().status;
    assert_eq!(stati.len(), 2);
}

#[test]
fn change_active_then_snapshot() {
    let mods = manager_with(&["A", "B"]);
    let mut lib = Library::new();
    lib.insert(String::from("A"), sample_item("g1", vec![]), &mods).unwrap();
    lib.insert(String::from("B"), sample_item("g1", vec![]), &mods).unwrap();
    lib.change_default_provider(&String::from("g1"), String::from("B")).unwrap();
    let snap = lib.get(&String::from("g1")).unwrap().to_frontend();
    assert_eq!(snap.active_provider.uuid, "B");
}

#[test]
fn insert_keeps_first_metadata() {
    let mods = manager_with(&["A", "B"]);
    let mut lib = Library::new();
    let mut first = sample_item("g1", vec![]);
    first.name = String::from("First name");
    lib.insert(String::from("A"), first, &mods).unwrap();
    let mut second = sample_item("g1", vec![]);
    second.name = String::from("Second name");
    lib.insert(String::from("B"), second, &mods).unwrap();
    let snap = lib.get(&String::from("g1")).unwrap().to_frontend();
    assert_eq!(snap.name, "First name");
    assert_eq!(snap.active_provider.uuid, "A");
}

#[test]
fn insert_from_unloaded_module_fails() {
    let mods = manager_with(&["A"]);
    let mut lib = Library::new();
    let err = lib
        .insert(String::from("Nope"), sample_item("g1", vec![]), &mods)
        .unwrap_err();
    assert_eq!(err.name, "Nope");
}

#[test]
fn bulk_insert_adds_every_item() {
    let mods = manager_with(&["A"]);
    let mut lib = Library::new();
    lib.bulk_insert(
        String::from("A"),
        vec![sample_item("g1", vec![]), sample_item("g2", vec![])],
        &mods,
    )
    .unwrap();
    assert!(lib.get(&String::from("g1")).is_ok());
    assert!(lib.get(&String::from("g2")).is_ok());
    assert_eq!(lib.to_frontend().len(), 2);
}

#[test]
fn get_missing_item_fails() {
    let lib = Library::new();
    let err = lib.get(&String::from("nothing")).unwrap_err();
    assert_eq!(err.name, "nothing");
    assert_eq!(
        err.message(),
        "Attemt to find nothing in library was unsuccessful"
    );
}

#[test]
fn get_mut_reaches_the_item() {
    let mods = manager_with(&["A"]);
    let mut lib = Library::new();
    lib.insert(String::from("A"), sample_item("g1", vec![]), &mods).unwrap();
    let item = lib.get_mut(&String::from("g1")).unwrap();
    item.update_state(
        String::from("A"),
        UpdStateAction::Add,
        LibraryItemStatus::Closing,
    )
    .unwrap();
    let snap = lib.get(&String::from("g1")).unwrap().to_frontend();
    let a = snap.providers.get(&String::from("A")).unwrap();
    assert!(a.stati.contains(&LibraryItemStatus::Closing));
}

#[test]
fn full_snapshot_carries_details() {
    let mods = manager_with(&["A"]);
    let mut lib = Library::new();
    lib.insert(String::from("A"), sample_item("g1", vec![]), &mods).unwrap();
    let full = lib.to_full();
    assert_eq!(full.len(), 1);
    assert_eq!(full[0].details.description, "described");
    assert_eq!(full[0].details.credits.developer, "dev");
}

#[test]
fn abi_mismatch_rejected() {
    let mut mods = ModuleManager::new();
    let err = mods
        .register_module(
            String::from("old_plugin"),
            ModuleInfo {
                name: String::from("Old"),
                url: None,
                developer: String::from("dev"),
                developer_url: None,
                description: None,
                icon: None,
            },
            String::from("0.0.1"),
            module_interface_version(),
        )
        .unwrap_err();
    assert_eq!(err.name, "old_plugin");
    assert_eq!(
        err.message(),
        "The module old_plugin implements ABI version 0.0.1. The core is built against 0.0.0"
    );
    assert!(mods.get(&String::from("old_plugin")).is_err());
}

#[test]
fn dead_plugin_is_refused_by_lookup() {
    let mut mods = manager_with(&["A"]);
    assert!(mods.get(&String::from("A")).is_ok());
    mods.mark_dead(&String::from("A"));
    let err = mods.get(&String::from("A")).unwrap_err();
    assert_eq!(err.message(), "Attemt to find unloaded module: A");
}

#[test]
fn error_messages_render() {
    assert_eq!(
        ModuleNotAvailableError::new(String::from("m")).message(),
        "Attemt to find unloaded module: m"
    );
    assert_eq!(
        ProvModuleNotAvailableError::new(String::from("p")).message(),
        "The FE requested a module that was not available: p"
    );
    assert_eq!(
        LibraryItemNotAvailableError::new(&String::from("i")).message(),
        "Attemt to find i in library was unsuccessful"
    );
    assert_eq!(
        FrontendNotAvailableError::new(&String::from("f")).message(),
        "Attemt to find Frontend f was unsuccessful"
    );
    assert_eq!(
        ModuleABIError::new(String::from("m"), String::from("1"), String::from("2")).message(),
        "The module m implements ABI version 1. The core is built against 2"
    );
    assert_eq!(
        UnkownUtopiaError::new(String::from("went wrong"), 0u8).message(),
        "An error occured: went wrong"
    );
    assert_eq!(
        utopia_core::errors::FileError::new(String::from("/p"), String::from("denied")).message(),
        "Unable to interact with file /p: denied"
    );
}

#[test]
fn string_map_basics() {
    let mut m: StringMap<u32> = StringMap::new();
    assert_eq!(m.len(), 0);
    m.insert(String::from("a"), 1);
    m.insert(String::from("b"), 2);
    m.insert(String::from("a"), 3);
    assert_eq!(m.len(), 2);
    assert_eq!(m.get(&String::from("a")), Some(&3));
    assert_eq!(m.get(&String::from("b")), Some(&2));
    assert_eq!(m.get(&String::from("c")), None);
    assert_eq!(m.key_at(0), "a");
    assert_eq!(m.key_at(1), "b");
}
