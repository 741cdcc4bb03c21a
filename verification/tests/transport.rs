use utopia_core::config::{is_ready_payload, UtopiaConfiguration};
use utopia_core::eventloop::{CoreEffect, EventLoop};
use utopia_core::frontend::CoreActions;
use utopia_core::library::preferences::{FieldType, InputType, PrefMap, DiagType};
use utopia_core::modules::ModuleManager;
use utopia_core::registry::{HandshakeError, SockStreamMap};

#[test]
fn handshake_rejects_empty() {
    let r = SockStreamMap::accept_handshake(&[]);
    assert_eq!(r, Err(HandshakeError::Empty));
}

#[test]
fn handshake_accepts_full_name() {
    // 64 bytes of non-whitespace come through exactly
    let name: String = "x".repeat(64);
    let r = SockStreamMap::accept_handshake(name.as_bytes()).unwrap();
    assert_eq!(r, name);
}

#[test]
fn handshake_strips_whitespace() {
    let r = SockStreamMap::accept_handshake(b"frontA\n").unwrap();
    assert_eq!(r, "frontA");
    let r = SockStreamMap::accept_handshake(b"  fro nt\tB \r\n").unwrap();
    assert_eq!(r, "frontB");
}

#[test]
fn handshake_rejects_invalid_encoding() {
    let r = SockStreamMap::accept_handshake(&[0xff, 0xfe, 0x41]);
    assert_eq!(r, Err(HandshakeError::InvalidEncoding));
}

#[test]
fn decode_error_reported() {
    let evl = EventLoop::new(ModuleManager::new());
    let effects = evl.handle_frontend_decode_error(
        &String::from("frontA"),
        String::from("unknown variant `Bogus`"),
    );
    assert_eq!(effects.len(), 1);
    match &effects[0] {
        CoreEffect::WriteFrontend(name, ev) => {
            assert_eq!(name, "frontA");
            assert!(ev.uuid.is_none());
            match &ev.action {
                CoreActions::Error(tag, detail) => {
                    assert_eq!(tag, "Received invalid message");
                    assert_eq!(detail, "unknown variant `Bogus`");
                }
                other => panic!("unexpected action: {:?}", other),
            }
        }
        other => panic!("unexpected effect: {:?}", other),
    }
}

#[test]
fn terminated_connection_removed_before_next_dispatch() {
    let mut evl = EventLoop::new(ModuleManager::new());
    evl.handle_internal(utopia_core::eventloop::InternalCoreFutures::NewFrontendRegistered(
        String::from("frontA"),
    ));
    evl.handle_internal(utopia_core::eventloop::InternalCoreFutures::NewFrontendRegistered(
        String::from("frontB"),
    ));
    assert!(evl.connections.contains(&String::from("frontA")));
    evl.handle_frontend_terminated(&String::from("frontA"));
    evl.begin_dispatch();
    assert!(!evl.connections.contains(&String::from("frontA")));
    assert!(evl.connections.contains(&String::from("frontB")));
    assert!(evl.connections.write_stream(&String::from("frontA")).is_err());
    assert!(evl.connections.write_stream(&String::from("frontB")).is_ok());
}

#[test]
fn registry_is_terminated_when_all_streams_ended() {
    let mut reg = SockStreamMap::new();
    assert!(reg.is_terminated());
    reg.insert(String::from("a"));
    assert!(!reg.is_terminated());
    reg.mark_terminated(&String::from("a"));
    assert!(reg.is_terminated());
}

#[test]
fn ready_payload_sentinel() {
    assert!(is_ready_payload("READY=1"));
    assert!(!is_ready_payload("READY=0"));
    assert!(!is_ready_payload(""));
    assert!(!is_ready_payload("ready=1"));
}

#[test]
fn config_paths_derive_from_base_dirs() {
    let c = UtopiaConfiguration::new(
        String::from("/run/user/1000"),
        String::from("/home/u"),
        None,
    );
    assert_eq!(c.socket, "/run/user/1000/utopia.sock");
    assert_eq!(c.database.socket, "/run/user/1000/utopiadb.sock");
    assert_eq!(c.database.ready_sock, "/run/user/1000/_utopiadbctl.dsock");
    assert_eq!(c.database.working_dir, "/home/u/.local/share/utopia");
    assert_eq!(c.database.logfile, "/home/u/.local/share/utopia/db.log");

    let c = UtopiaConfiguration::new(
        String::from("/run/user/1000"),
        String::from("/home/u"),
        Some(String::from("/data")),
    );
    assert_eq!(c.database.working_dir, "/data/utopia");
}

#[test]
fn field_type_getters() {
    let f = FieldType::Checkbox(true);
    assert_eq!(f.try_get_checkbox(), Some(true));
    let f = FieldType::Input(InputType::Text(String::from("hi")));
    assert_eq!(f.get_input().get_str(), "hi");
    let f = FieldType::Dropdown(1, vec![String::from("a"), String::from("b")]);
    assert_eq!(f.try_get_dropdown_ref(), Some(&String::from("b")));
    assert_eq!(f.get_dropdown_value(), "b");
    let f = FieldType::List(vec![String::from("x")]);
    assert_eq!(f.try_get_checkbox(), None);
}

#[test]
fn correlator_keeps_one_entry_per_key() {
    let mut pm = PrefMap::new();
    pm.insert(
        String::from("p"),
        DiagType::Module,
        String::from("front1"),
        Some(String::from("c1")),
    );
    pm.insert(
        String::from("p"),
        DiagType::Module,
        String::from("front2"),
        Some(String::from("c2")),
    );
    let taken = pm.take(&String::from("p"), &DiagType::Module);
    assert_eq!(
        taken,
        Some((String::from("front2"), Some(String::from("c2"))))
    );
    assert_eq!(pm.take(&String::from("p"), &DiagType::Module), None);
}
