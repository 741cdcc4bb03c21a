use utopia_core::eventloop::{CoreEffect, EventLoop, InternalCoreFutures};
use utopia_core::frontend::{CoreActions, FrontendActions, FrontendEvent};
use utopia_core::library::age_rating::AgeRating;
use utopia_core::library::credits::Credits;
use utopia_core::library::preferences::{DiagType, PreferenceDiag};
use utopia_core::library::{
    LibraryItemKind, LibraryItemModule, LibraryItemProviderMethods, LibraryItemStatus,
};
use utopia_core::module::{
    CoreCommands, LibraryItemStatusSignals, ModuleCommands, ModuleInfo,
};
use utopia_core::modules::{module_interface_version, ModuleManager};
use utopia_core::smap::StringMap;

fn plugin_info(name: &str) -> ModuleInfo {
    ModuleInfo {
        name: String::from(name),
        url: None,
        developer: String::from("dev"),
        developer_url: None,
        description: None,
        icon: None,
    }
}

fn item_record(uuid: &str, name: &str, status: Vec<LibraryItemStatus>) -> LibraryItemModule {
    LibraryItemModule {
        uuid: String::from(uuid),
        name: String::from(name),
        kind: LibraryItemKind::Game,
        details: utopia_core::library::LibraryItemDetails {
            age_rating: AgeRating { pegi_rating: None, esrb_rating: None, fsk_rating: None },
            artworks: Vec::new(),
            description: String::from("a game"),
            genre: Vec::new(),
            game_modes: Vec::new(),
            credits: Credits {
                developer: String::from("dev"),
                publisher: None,
                director: None,
                other: StringMap::new(),
            },
            controller_support: Vec::new(),
        },
        status,
    }
}

fn loop_with_plugins(ids: &[&str]) -> EventLoop {
    let mut mods = ModuleManager::new();
    for id in ids {
        mods.register_module(
            String::from(*id),
            plugin_info(&format!("{} plugin", id)),
            module_interface_version(),
            module_interface_version(),
        )
        .unwrap();
    }
    EventLoop::new(mods)
}

fn front_msg(uuid: Option<&str>, action: FrontendActions) -> FrontendEvent {
    FrontendEvent {
        version: String::from("0.0.0"),
        uuid: uuid.map(String::from),
        action,
    }
}

#[test]
fn handshake_then_list() {
    let mut evl = loop_with_plugins(&[]);
    let effects = evl.handle_internal(InternalCoreFutures::NewFrontendRegistered(String::from(
        "frontA",
    )));
    assert_eq!(effects.len(), 1);
    match &effects[0] {
        CoreEffect::WriteFrontend(name, ev) => {
            assert_eq!(name, "frontA");
            assert_eq!(ev.version, "0.0.0");
            assert!(ev.uuid.is_none());
            match &ev.action {
                CoreActions::SignalSuccessHandshake(n) => assert_eq!(n, "frontA"),
                other => panic!("unexpected action: {:?}", other),
            }
        }
        other => panic!("unexpected effect: {:?}", other),
    }
    let effects = evl.handle_frontend_message(
        &String::from("frontA"),
        front_msg(Some("r1"), FrontendActions::GetGameLibrary),
    );
    assert_eq!(effects.len(), 1);
    match &effects[0] {
        CoreEffect::WriteFrontend(name, ev) => {
            assert_eq!(name, "frontA");
            assert_eq!(ev.version, "0.0.0");
            assert_eq!(ev.uuid.as_deref(), Some("r1"));
            match &ev.action {
                CoreActions::ResponseGameLibrary(items) => assert!(items.is_empty()),
                other => panic!("unexpected action: {:?}", other),
            }
        }
        other => panic!("unexpected effect: {:?}", other),
    }
}

#[test]
fn dual_provider_dedup() {
    let mut evl = loop_with_plugins(&["A", "B"]);
    let effects = evl.handle_module_command(
        String::from("A"),
        ModuleCommands::AddLibraryItem(item_record("g1", "G", vec![LibraryItemStatus::Installed])),
    );
    assert!(effects.is_empty());
    let effects = evl.handle_module_command(
        String::from("B"),
        ModuleCommands::AddLibraryItem(item_record(
            "g1",
            "G",
            vec![LibraryItemStatus::Installed, LibraryItemStatus::Updatable],
        )),
    );
    assert!(effects.is_empty());

    let snaps = evl.core.library.to_frontend();
    assert_eq!(snaps.len(), 1);
    let snap = &snaps[0];
    assert_eq!(snap.uuid, "g1");
    assert_eq!(snap.name, "G");
    assert_eq!(snap.providers.len(), 2);
    let a = snap.providers.get(&String::from("A")).expect("provider A missing");
    let b = snap.providers.get(&String::from("B")).expect("provider B missing");
    assert_eq!(a.stati, vec![LibraryItemStatus::Installed]);
    assert_eq!(
        b.stati,
        vec![LibraryItemStatus::Installed, LibraryItemStatus::Updatable]
    );
    assert_eq!(snap.active_provider.uuid, "A");
}

#[test]
fn launch_and_terminate() {
    let mut evl = loop_with_plugins(&["A"]);
    evl.handle_module_command(
        String::from("A"),
        ModuleCommands::AddLibraryItem(item_record("g1", "G", vec![LibraryItemStatus::Installed])),
    );
    let effects = evl.handle_frontend_message(
        &String::from("frontA"),
        front_msg(
            None,
            FrontendActions::GameMethod(LibraryItemProviderMethods::Launch(String::from("g1"))),
        ),
    );
    assert_eq!(effects.len(), 1);
    match &effects[0] {
        CoreEffect::SendModule(m, CoreCommands::LaunchLibraryItem(u)) => {
            assert_eq!(m, "A");
            assert_eq!(u, "g1");
        }
        other => panic!("unexpected effect: {:?}", other),
    }

    let effects = evl.handle_module_command(
        String::from("A"),
        ModuleCommands::ItemStatusSignal(LibraryItemStatusSignals::Launched(
            String::from("g1"),
            4242,
        )),
    );
    assert_eq!(effects.len(), 2);
    assert!(matches!(effects[0], CoreEffect::WatchProcess(4242)));
    match &effects[1] {
        CoreEffect::Broadcast(ev) => {
            assert!(ev.uuid.is_none());
            match &ev.action {
                CoreActions::ResponseGameUpdate(snap) => {
                    let a = snap.providers.get(&String::from("A")).unwrap();
                    assert!(a.stati.contains(&LibraryItemStatus::Running(Some(4242))));
                }
                other => panic!("unexpected action: {:?}", other),
            }
        }
        other => panic!("unexpected effect: {:?}", other),
    }

    let effects = evl.handle_internal(InternalCoreFutures::ProcessDied(4242, 0));
    assert_eq!(effects.len(), 1);
    match &effects[0] {
        CoreEffect::Broadcast(ev) => match &ev.action {
            CoreActions::ResponseGameUpdate(snap) => {
                let a = snap.providers.get(&String::from("A")).unwrap();
                assert!(!a.stati.contains(&LibraryItemStatus::Running(Some(4242))));
            }
            other => panic!("unexpected action: {:?}", other),
        },
        other => panic!("unexpected effect: {:?}", other),
    }
}

#[test]
fn change_provider() {
    let mut evl = loop_with_plugins(&["A", "B"]);
    evl.handle_module_command(
        String::from("A"),
        ModuleCommands::AddLibraryItem(item_record("g1", "G", vec![LibraryItemStatus::Installed])),
    );
    evl.handle_module_command(
        String::from("B"),
        ModuleCommands::AddLibraryItem(item_record("g1", "G", vec![LibraryItemStatus::Installed])),
    );
    let effects = evl.handle_frontend_message(
        &String::from("frontA"),
        front_msg(
            Some("r7"),
            FrontendActions::GameMethod(LibraryItemProviderMethods::ChangeSelectedProvider(
                String::from("g1"),
                String::from("B"),
            )),
        ),
    );
    assert_eq!(effects.len(), 1);
    match &effects[0] {
        CoreEffect::Broadcast(ev) => {
            assert_eq!(ev.uuid.as_deref(), Some("r7"));
            match &ev.action {
                CoreActions::ResponseGameUpdate(snap) => {
                    assert_eq!(snap.active_provider.uuid, "B");
                }
                other => panic!("unexpected action: {:?}", other),
            }
        }
        other => panic!("unexpected effect: {:?}", other),
    }
}

#[test]
fn unknown_provider() {
    let mut evl = loop_with_plugins(&["A"]);
    evl.handle_module_command(
        String::from("A"),
        ModuleCommands::AddLibraryItem(item_record("g1", "G", vec![LibraryItemStatus::Installed])),
    );
    let effects = evl.handle_frontend_message(
        &String::from("frontA"),
        front_msg(
            Some("r9"),
            FrontendActions::GameMethod(LibraryItemProviderMethods::LaunchViaProvider(
                String::from("g1"),
                String::from("Z"),
            )),
        ),
    );
    assert_eq!(effects.len(), 1);
    match &effects[0] {
        CoreEffect::WriteFrontend(name, ev) => {
            assert_eq!(name, "frontA");
            assert_eq!(ev.uuid.as_deref(), Some("r9"));
            match &ev.action {
                CoreActions::Error(tag, detail) => {
                    assert_eq!(tag, "Error running item via provider");
                    assert!(detail.contains('Z'));
                }
                other => panic!("unexpected action: {:?}", other),
            }
        }
        other => panic!("unexpected effect: {:?}", other),
    }
}

#[test]
fn preference_round_trip() {
    let mut evl = loop_with_plugins(&["pluginA"]);
    let effects = evl.handle_frontend_message(
        &String::from("front1"),
        front_msg(
            Some("p1"),
            FrontendActions::RequestPreferenceDiag(
                String::from("pluginA"),
                DiagType::Item(String::from("g1")),
            ),
        ),
    );
    assert_eq!(effects.len(), 1);
    match &effects[0] {
        CoreEffect::SendModule(m, CoreCommands::RequestPreferenceDiag(DiagType::Item(u))) => {
            assert_eq!(m, "pluginA");
            assert_eq!(u, "g1");
        }
        other => panic!("unexpected effect: {:?}", other),
    }

    let diag = PreferenceDiag { uuid: String::from("d1"), panes: Vec::new() };
    let effects = evl.handle_module_command(
        String::from("pluginA"),
        ModuleCommands::PreferenceDiagResponse(DiagType::Item(String::from("g1")), diag),
    );
    assert_eq!(effects.len(), 1);
    match &effects[0] {
        CoreEffect::WriteFrontend(name, ev) => {
            assert_eq!(name, "front1");
            assert_eq!(ev.uuid.as_deref(), Some("p1"));
            match &ev.action {
                CoreActions::PreferenceDiagResponse((m, DiagType::Item(u)), dg) => {
                    assert_eq!(m, "pluginA");
                    assert_eq!(u, "g1");
                    assert_eq!(dg.uuid, "d1");
                }
                other => panic!("unexpected action: {:?}", other),
            }
        }
        other => panic!("unexpected effect: {:?}", other),
    }

    // an unmatched second response is dropped
    let diag = PreferenceDiag { uuid: String::from("d2"), panes: Vec::new() };
    let effects = evl.handle_module_command(
        String::from("pluginA"),
        ModuleCommands::PreferenceDiagResponse(DiagType::Item(String::from("g1")), diag),
    );
    assert!(effects.is_empty());
}

#[test]
fn launch_without_alive_plugin() {
    let mut evl = loop_with_plugins(&["A"]);
    evl.handle_module_command(
        String::from("A"),
        ModuleCommands::AddLibraryItem(item_record("g1", "G", vec![LibraryItemStatus::Installed])),
    );
    evl.handle_module_death(&String::from("A"));
    let effects = evl.handle_frontend_message(
        &String::from("frontA"),
        front_msg(
            Some("r2"),
            FrontendActions::GameMethod(LibraryItemProviderMethods::Launch(String::from("g1"))),
        ),
    );
    assert_eq!(effects.len(), 1);
    match &effects[0] {
        CoreEffect::WriteFrontend(_, ev) => match &ev.action {
            CoreActions::Error(tag, detail) => {
                assert_eq!(tag, "Error running item");
                assert_eq!(detail, "Attemt to find unloaded module: A");
            }
            other => panic!("unexpected action: {:?}", other),
        },
        other => panic!("unexpected effect: {:?}", other),
    }
}

#[test]
fn database_death_is_fatal() {
    let mut evl = loop_with_plugins(&[]);
    let effects = evl.handle_internal(InternalCoreFutures::DatabaseProcessDied);
    assert_eq!(effects.len(), 1);
    assert!(matches!(effects[0], CoreEffect::Shutdown));
}

#[test]
fn unimplemented_method_is_ignored() {
    let mut evl = loop_with_plugins(&["A"]);
    evl.handle_module_command(
        String::from("A"),
        ModuleCommands::AddLibraryItem(item_record("g1", "G", vec![LibraryItemStatus::Installed])),
    );
    let effects = evl.handle_frontend_message(
        &String::from("frontA"),
        front_msg(
            None,
            FrontendActions::GameMethod(LibraryItemProviderMethods::Kill(String::from("g1"))),
        ),
    );
    assert!(effects.is_empty());
}

#[test]
fn get_game_details() {
    let mut evl = loop_with_plugins(&["A"]);
    evl.handle_module_command(
        String::from("A"),
        ModuleCommands::AddLibraryItem(item_record("g1", "G", vec![])),
    );
    let effects = evl.handle_frontend_message(
        &String::from("frontA"),
        front_msg(Some("r3"), FrontendActions::GetGameDetails(String::from("g1"))),
    );
    assert_eq!(effects.len(), 1);
    match &effects[0] {
        CoreEffect::WriteFrontend(_, ev) => {
            assert_eq!(ev.uuid.as_deref(), Some("r3"));
            match &ev.action {
                CoreActions::ResponseItemDetails(d) => assert_eq!(d.description, "a game"),
                other => panic!("unexpected action: {:?}", other),
            }
        }
        other => panic!("unexpected effect: {:?}", other),
    }

    let effects = evl.handle_frontend_message(
        &String::from("frontA"),
        front_msg(Some("r4"), FrontendActions::GetGameDetails(String::from("missing"))),
    );
    match &effects[0] {
        CoreEffect::WriteFrontend(_, ev) => match &ev.action {
            CoreActions::Error(tag, detail) => {
                assert_eq!(tag, "Failed to get library item");
                assert_eq!(detail, "Attemt to find missing in library was unsuccessful");
            }
            other => panic!("unexpected action: {:?}", other),
        },
        other => panic!("unexpected effect: {:?}", other),
    }
}

#[test]
fn full_library_snapshot_over_the_loop() {
    let mut evl = loop_with_plugins(&["A"]);
    evl.handle_module_command(
        String::from("A"),
        ModuleCommands::AddLibraryItemBulk(vec![
            item_record("g1", "G1", vec![]),
            item_record("g2", "G2", vec![]),
        ]),
    );
    let effects = evl.handle_frontend_message(
        &String::from("frontA"),
        front_msg(Some("r5"), FrontendActions::GetFullGameLibrary),
    );
    assert_eq!(effects.len(), 1);
    match &effects[0] {
        CoreEffect::WriteFrontend(_, ev) => match &ev.action {
            CoreActions::ResponseFullGameLibrary(items) => {
                assert_eq!(items.len(), 2);
                assert_eq!(items[0].details.description, "a game");
            }
            other => panic!("unexpected action: {:?}", other),
        },
        other => panic!("unexpected effect: {:?}", other),
    }
}

#[test]
fn republish_drops_stale_process_watch() {
    let mut evl = loop_with_plugins(&["A"]);
    evl.handle_module_command(
        String::from("A"),
        ModuleCommands::AddLibraryItem(item_record("g1", "G", vec![LibraryItemStatus::Installed])),
    );
    evl.handle_module_command(
        String::from("A"),
        ModuleCommands::ItemStatusSignal(LibraryItemStatusSignals::Launched(
            String::from("g1"),
            7,
        )),
    );
    // the provider republishes the item without a running status, so the
    // stale child-table entry is dropped with it
    evl.handle_module_command(
        String::from("A"),
        ModuleCommands::AddLibraryItem(item_record("g1", "G", vec![LibraryItemStatus::Installed])),
    );
    let effects = evl.handle_internal(InternalCoreFutures::ProcessDied(7, 0));
    assert!(effects.is_empty());
}

#[test]
fn preference_request_for_unknown_plugin_is_ignored() {
    let mut evl = loop_with_plugins(&[]);
    let effects = evl.handle_frontend_message(
        &String::from("front1"),
        front_msg(
            Some("p2"),
            FrontendActions::RequestPreferenceDiag(
                String::from("nope"),
                DiagType::Module,
            ),
        ),
    );
    assert!(effects.is_empty());
}
