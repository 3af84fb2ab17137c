use cards::card_icon::{parse_card_icon, CardIcon};
use cards::workspace::{
    default_card_type, default_save_name, next_card_id, workspace_file_name, default_line_style, frame_workspace, unframe_workspace, WorkspaceError,
    FORMAT_VERSION,
};

#[test]
fn frame_writes_magic_version_and_payload() {
    let framed = frame_workspace(&[1, 2, 3]);
    assert_eq!(framed, b"CARDS\x01\x01\x01\x02\x03".to_vec());
    assert_eq!(FORMAT_VERSION, 1);
}

#[test]
fn frame_roundtrip_law() {
    for payload in [vec![], vec![0u8], vec![9u8, 8, 7, 6, 5, 4, 3, 2, 1]] {
        let framed = frame_workspace(&payload);
        match unframe_workspace(&framed) {
            Ok(p) => assert_eq!(p, payload.as_slice()),
            Err(e) => panic!("unexpected error {:?}", e),
        }
    }
}

#[test]
fn unframe_refuses_foreign_bytes() {
    assert!(matches!(unframe_workspace(b"CARDS\x01"), Err(WorkspaceError::BadMagic)));
    assert!(matches!(unframe_workspace(b"CARDX\x01\x01abc"), Err(WorkspaceError::BadMagic)));
    assert!(matches!(unframe_workspace(b""), Err(WorkspaceError::BadMagic)));
    // Any version byte is accepted.
    assert!(matches!(unframe_workspace(b"CARDS\x01\x07x"), Ok(p) if p == b"x"));
}

#[test]
fn error_messages() {
    assert_eq!(WorkspaceError::Io("gone".to_string()).message(), "I/O error: gone");
    assert_eq!(WorkspaceError::Encode("e".to_string()).message(), "Encode error: e");
    assert_eq!(WorkspaceError::Decode("d".to_string()).message(), "Decode error: d");
    assert_eq!(WorkspaceError::BadMagic.message(), "Not a valid .cards workspace file");
}

#[test]
fn defaults_for_old_files() {
    assert_eq!(default_line_style(), "Solid");
    assert_eq!(default_card_type(), "Text");
}

#[test]
fn card_icons_parse_by_name() {
    assert_eq!(parse_card_icon("Star"), CardIcon::Star);
    assert_eq!(parse_card_icon("ClipboardFill"), CardIcon::ClipboardFill);
    assert_eq!(parse_card_icon("NoSuchIcon"), CardIcon::Default);
    assert_eq!(parse_card_icon(""), CardIcon::Default);
    assert_eq!(parse_card_icon("star"), CardIcon::Default);
}

#[test]
fn card_icon_name_roundtrip_law() {
    for icon in [CardIcon::Default, CardIcon::HeartFill, CardIcon::Puzzle, CardIcon::Flower1] {
        assert_eq!(parse_card_icon(icon.name()), icon);
        assert_eq!(icon.name(), format!("{:?}", icon));
    }
}

#[test]
fn workspace_file_name_sanitises_trimmed_name() {
    assert_eq!(workspace_file_name("  My Notes ").as_deref(), Some("My_Notes.cards"));
    assert_eq!(workspace_file_name("a/b:c*d?").as_deref(), Some("a_b_c_d_.cards"));
    assert_eq!(workspace_file_name("plan-2024_v2").as_deref(), Some("plan-2024_v2.cards"));
    assert_eq!(workspace_file_name("Café №7").as_deref(), Some("Café__7.cards"));
    assert_eq!(workspace_file_name("   "), None);
    assert_eq!(workspace_file_name(""), None);
}

#[test]
fn default_save_name_replaces_spaces_only() {
    assert_eq!(default_save_name("My Notes"), "My_Notes.cards");
    assert_eq!(default_save_name(" a/b "), "_a/b_.cards");
    assert_eq!(default_save_name(""), ".cards");
}

#[test]
fn icon_names_match_debug_and_read_back() {
    let icons = [
        CardIcon::Default, CardIcon::Star, CardIcon::StarFill, CardIcon::Circle,
        CardIcon::CircleFill, CardIcon::CheckCircle, CardIcon::CheckCircleFill,
        CardIcon::ExclamationTriangle, CardIcon::ExclamationTriangleFill, CardIcon::Lock,
        CardIcon::LockFill, CardIcon::Unlock, CardIcon::Sun, CardIcon::Moon, CardIcon::Flower1,
        CardIcon::Graph, CardIcon::GraphUp, CardIcon::GraphDown, CardIcon::ClipboardFill,
        CardIcon::Puzzle,
    ];
    for icon in icons {
        assert_eq!(parse_card_icon(icon.name()), icon);
        assert_eq!(icon.name(), format!("{:?}", icon));
    }
}

#[test]
fn next_card_id_is_above_every_id_law() {
    assert_eq!(next_card_id(&[]), 1);
    assert_eq!(next_card_id(&[0]), 1);
    let ids = [3usize, 9, 2, 9, 7];
    let next = next_card_id(&ids);
    assert_eq!(next, 10);
    assert!(ids.iter().all(|&id| id < next));
}
