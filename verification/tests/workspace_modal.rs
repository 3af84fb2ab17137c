use cards::workspace_modal::{
    modal_step, operation_done, picker_step, ModalAction, PickerEvent, WorkspaceModalMessage,
    WorkspaceModalState,
};

#[test]
fn welcome_choices_open_their_screens() {
    let (s, a) = modal_step(Some(WorkspaceModalState::Idle), WorkspaceModalMessage::ChooseNew, false, true);
    assert_eq!(s, Some(WorkspaceModalState::CreatingNew { picking: false, is_import: false }));
    assert_eq!(a, ModalAction::Nothing);
    let (s, a) = modal_step(Some(WorkspaceModalState::Idle), WorkspaceModalMessage::ChooseOpen, false, true);
    assert_eq!((s, a), (Some(WorkspaceModalState::OpeningExisting), ModalAction::OpenWorkspacePicker));
    let (s, a) = modal_step(Some(WorkspaceModalState::Idle), WorkspaceModalMessage::ChooseImport, false, true);
    assert_eq!((s, a), (Some(WorkspaceModalState::ImportingWorkspace), ModalAction::OpenImportPicker));
}

#[test]
fn creating_needs_a_name_law() {
    let naming = Some(WorkspaceModalState::CreatingNew { picking: false, is_import: true });
    assert_eq!(modal_step(naming, WorkspaceModalMessage::ConfirmNew, false, true), (naming, ModalAction::Nothing));
    assert_eq!(
        modal_step(naming, WorkspaceModalMessage::ConfirmNew, false, false),
        (naming, ModalAction::CreateWorkspace { is_import: true })
    );
    assert_eq!(
        modal_step(Some(WorkspaceModalState::Idle), WorkspaceModalMessage::ConfirmNew, false, false).1,
        ModalAction::Nothing
    );
}

#[test]
fn cancel_returns_to_welcome_or_closes_law() {
    for state in [
        Some(WorkspaceModalState::OpeningExisting),
        Some(WorkspaceModalState::ImportingWorkspace),
    ] {
        assert_eq!(picker_step(state, PickerEvent::Cancel, true).0, None);
        assert_eq!(picker_step(state, PickerEvent::Cancel, false).0, Some(WorkspaceModalState::Idle));
    }
    let naming = Some(WorkspaceModalState::CreatingNew { picking: false, is_import: false });
    assert_eq!(modal_step(naming, WorkspaceModalMessage::CancelNew, true, false).0, None);
    assert_eq!(modal_step(naming, WorkspaceModalMessage::CancelNew, false, false).0, Some(WorkspaceModalState::Idle));
    // Cancelling the directory picker goes back to naming.
    let picking = Some(WorkspaceModalState::CreatingNew { picking: true, is_import: false });
    assert_eq!(picker_step(picking, PickerEvent::Cancel, true), (naming, ModalAction::Nothing));
}

#[test]
fn picker_events() {
    let picking = Some(WorkspaceModalState::CreatingNew { picking: true, is_import: false });
    assert_eq!(picker_step(picking, PickerEvent::SelectFile, true), (picking, ModalAction::Navigate));
    assert_eq!(
        picker_step(picking, PickerEvent::Confirm, true),
        (Some(WorkspaceModalState::CreatingNew { picking: false, is_import: false }), ModalAction::UsePickerDirectory)
    );
    let open = Some(WorkspaceModalState::OpeningExisting);
    assert_eq!(picker_step(open, PickerEvent::SelectFile, false), (open, ModalAction::LoadSelected));
    assert_eq!(picker_step(open, PickerEvent::Confirm, false), (open, ModalAction::LoadTyped));
    let import = Some(WorkspaceModalState::ImportingWorkspace);
    assert_eq!(picker_step(import, PickerEvent::Confirm, false), (import, ModalAction::ImportTyped));
    assert_eq!(picker_step(None, PickerEvent::Confirm, false), (None, ModalAction::Nothing));
    assert_eq!(operation_done(open, true), None);
    assert_eq!(operation_done(open, false), open);
    let browse = modal_step(Some(WorkspaceModalState::CreatingNew { picking: false, is_import: false }), WorkspaceModalMessage::BrowseSaveDir, false, false);
    assert_eq!(browse, (picking, ModalAction::OpenSavePicker));
}
