//! The "open or create workspace" dialog: which screen it shows and what each
//! button or file-picker event does. The dialog's texts, directories and file
//! picker are kept by the application; this module decides.
use vstd::prelude::*;

verus! {

/// The screen of the workspace dialog.
#[derive(PartialEq, Eq, Structural, Debug, Clone, Copy)]
pub enum WorkspaceModalState {
    /// The welcome screen: create, open or import.
    Idle,
    /// A new workspace is being named; `picking` while its directory is being
    /// chosen in the file picker; `is_import` when it is to hold an imported
    /// workspace.
    CreatingNew { picking: bool, is_import: bool },
    /// An existing workspace file is being picked.
    OpeningExisting,
    /// A workspace export is being picked for import.
    ImportingWorkspace,
}

/// An event of the file picker inside the dialog.
#[derive(PartialEq, Eq, Structural, Debug, Clone, Copy)]
pub enum PickerEvent {
    Cancel,
    /// Going up, into a directory or to a place, unfolding a drive, or typing a
    /// file name: the picker changes, the dialog does not.
    Navigate,
    /// A file was clicked.
    SelectFile,
    Confirm,
    /// Anything else.
    Other,
}

/// A message of the dialog.
#[derive(PartialEq, Eq, Structural, Debug, Clone, Copy)]
pub enum WorkspaceModalMessage {
    Noop,
    ChooseNew,
    ChooseOpen,
    ChooseImport,
    /// The new name's text changed.
    NewNameInput,
    BrowseSaveDir,
    ConfirmNew,
    CancelNew,
    FilePicker(PickerEvent),
}

/// What the application does after a step of the dialog.
#[derive(PartialEq, Eq, Structural, Debug, Clone, Copy)]
pub enum ModalAction {
    Nothing,
    /// Store the typed name.
    StoreName,
    /// Open a file picker on the default directory: for a directory to save
    /// in, a `.cards` file to open, or any file to import.
    OpenSavePicker,
    OpenWorkspacePicker,
    OpenImportPicker,
    /// Apply the navigation to the picker.
    Navigate,
    /// The picker's current directory becomes the directory to save in.
    UsePickerDirectory,
    /// Save a new workspace under the typed name (the imported boards when
    /// `is_import`), then report with `operation_done`.
    CreateWorkspace { is_import: bool },
    /// Load the clicked file, or the file whose name was typed, then report
    /// with `operation_done`.
    LoadSelected,
    LoadTyped,
    /// Import the clicked file, or the file whose name was typed.
    ImportSelected,
    ImportTyped,
}

/// Where cancelling leads: the dialog closes when a workspace is open, else it
/// returns to the welcome screen.
pub open spec fn cancelled(workspace_loaded: bool) -> Option<WorkspaceModalState> {
    if workspace_loaded {
        None
    } else {
        Some(WorkspaceModalState::Idle)
    }
}

/// One step of the file picker shown by the dialog in `state`.
pub open spec fn picker_next(
    state: Option<WorkspaceModalState>,
    ev: PickerEvent,
    workspace_loaded: bool,
) -> (Option<WorkspaceModalState>, ModalAction) {
    match state {
        Some(WorkspaceModalState::CreatingNew { picking: true, is_import }) => match ev {
            PickerEvent::Cancel => (
                Some(WorkspaceModalState::CreatingNew { picking: false, is_import }),
                ModalAction::Nothing,
            ),
            PickerEvent::Navigate | PickerEvent::SelectFile => (state, ModalAction::Navigate),
            PickerEvent::Confirm => (
                Some(WorkspaceModalState::CreatingNew { picking: false, is_import }),
                ModalAction::UsePickerDirectory,
            ),
            PickerEvent::Other => (state, ModalAction::Nothing),
        },
        Some(WorkspaceModalState::OpeningExisting) => match ev {
            PickerEvent::Cancel => (cancelled(workspace_loaded), ModalAction::Nothing),
            PickerEvent::Navigate => (state, ModalAction::Navigate),
            PickerEvent::SelectFile => (state, ModalAction::LoadSelected),
            PickerEvent::Confirm => (state, ModalAction::LoadTyped),
            PickerEvent::Other => (state, ModalAction::Nothing),
        },
        Some(WorkspaceModalState::ImportingWorkspace) => match ev {
            PickerEvent::Cancel => (cancelled(workspace_loaded), ModalAction::Nothing),
            PickerEvent::Navigate => (state, ModalAction::Navigate),
            PickerEvent::SelectFile => (state, ModalAction::ImportSelected),
            PickerEvent::Confirm => (state, ModalAction::ImportTyped),
            PickerEvent::Other => (state, ModalAction::Nothing),
        },
        _ => (state, ModalAction::Nothing),
    }
}

/// One step of the dialog in `state` on `msg`; `name_blank` tells whether
/// the typed name is blank.
pub open spec fn modal_next(
    state: Option<WorkspaceModalState>,
    msg: WorkspaceModalMessage,
    workspace_loaded: bool,
    name_blank: bool,
) -> (Option<WorkspaceModalState>, ModalAction) {
    match msg {
        WorkspaceModalMessage::Noop => (state, ModalAction::Nothing),
        WorkspaceModalMessage::ChooseNew => (
            Some(WorkspaceModalState::CreatingNew { picking: false, is_import: false }),
            ModalAction::Nothing,
        ),
        WorkspaceModalMessage::ChooseOpen => (
            Some(WorkspaceModalState::OpeningExisting),
            ModalAction::OpenWorkspacePicker,
        ),
        WorkspaceModalMessage::ChooseImport => (
            Some(WorkspaceModalState::ImportingWorkspace),
            ModalAction::OpenImportPicker,
        ),
        WorkspaceModalMessage::NewNameInput => match state {
            Some(WorkspaceModalState::CreatingNew { .. }) => (state, ModalAction::StoreName),
            _ => (state, ModalAction::Nothing),
        },
        WorkspaceModalMessage::BrowseSaveDir => match state {
            Some(WorkspaceModalState::CreatingNew { is_import, .. }) => (
                Some(WorkspaceModalState::CreatingNew { picking: true, is_import }),
                ModalAction::OpenSavePicker,
            ),
            _ => (state, ModalAction::Nothing),
        },
        WorkspaceModalMessage::ConfirmNew => match state {
            Some(WorkspaceModalState::CreatingNew { is_import, .. }) => if name_blank {
                (state, ModalAction::Nothing)
            } else {
                (state, ModalAction::CreateWorkspace { is_import })
            },
            _ => (state, ModalAction::Nothing),
        },
        WorkspaceModalMessage::CancelNew => (cancelled(workspace_loaded), ModalAction::Nothing),
        WorkspaceModalMessage::FilePicker(ev) => picker_next(state, ev, workspace_loaded),
    }
}

/// One step of the file picker inside the dialog.
pub fn picker_step(state: Option<WorkspaceModalState>, ev: PickerEvent, workspace_loaded: bool) -> (r: (
    Option<WorkspaceModalState>,
    ModalAction,
))
    ensures
        r == picker_next(state, ev, workspace_loaded),
{
    let cancel = if workspace_loaded {
        None
    } else {
        Some(WorkspaceModalState::Idle)
    };
    match state {
        Some(WorkspaceModalState::CreatingNew { picking: true, is_import }) => match ev {
            PickerEvent::Cancel => (
                Some(WorkspaceModalState::CreatingNew { picking: false, is_import }),
                ModalAction::Nothing,
            ),
            PickerEvent::Navigate | PickerEvent::SelectFile => (state, ModalAction::Navigate),
            PickerEvent::Confirm => (
                Some(WorkspaceModalState::CreatingNew { picking: false, is_import }),
                ModalAction::UsePickerDirectory,
            ),
            PickerEvent::Other => (state, ModalAction::Nothing),
        },
        Some(WorkspaceModalState::OpeningExisting) => match ev {
            PickerEvent::Cancel => (cancel, ModalAction::Nothing),
            PickerEvent::Navigate => (state, ModalAction::Navigate),
            PickerEvent::SelectFile => (state, ModalAction::LoadSelected),
            PickerEvent::Confirm => (state, ModalAction::LoadTyped),
            PickerEvent::Other => (state, ModalAction::Nothing),
        },
        Some(WorkspaceModalState::ImportingWorkspace) => match ev {
            PickerEvent::Cancel => (cancel, ModalAction::Nothing),
            PickerEvent::Navigate => (state, ModalAction::Navigate),
            PickerEvent::SelectFile => (state, ModalAction::ImportSelected),
            PickerEvent::Confirm => (state, ModalAction::ImportTyped),
            PickerEvent::Other => (state, ModalAction::Nothing),
        },
        _ => (state, ModalAction::Nothing),
    }
}

/// One step of the dialog on a message.
pub fn modal_step(
    state: Option<WorkspaceModalState>,
    msg: WorkspaceModalMessage,
    workspace_loaded: bool,
    name_blank: bool,
) -> (r: (Option<WorkspaceModalState>, ModalAction))
    ensures
        r == modal_next(state, msg, workspace_loaded, name_blank),
{
    match msg {
        WorkspaceModalMessage::Noop => (state, ModalAction::Nothing),
        WorkspaceModalMessage::ChooseNew => (
            Some(WorkspaceModalState::CreatingNew { picking: false, is_import: false }),
            ModalAction::Nothing,
        ),
        WorkspaceModalMessage::ChooseOpen => (
            Some(WorkspaceModalState::OpeningExisting),
            ModalAction::OpenWorkspacePicker,
        ),
        WorkspaceModalMessage::ChooseImport => (
            Some(WorkspaceModalState::ImportingWorkspace),
            ModalAction::OpenImportPicker,
        ),
        WorkspaceModalMessage::NewNameInput => match state {
            Some(WorkspaceModalState::CreatingNew { .. }) => (state, ModalAction::StoreName),
            _ => (state, ModalAction::Nothing),
        },
        WorkspaceModalMessage::BrowseSaveDir => match state {
            Some(WorkspaceModalState::CreatingNew { is_import, .. }) => (
                Some(WorkspaceModalState::CreatingNew { picking: true, is_import }),
                ModalAction::OpenSavePicker,
            ),
            _ => (state, ModalAction::Nothing),
        },
        WorkspaceModalMessage::ConfirmNew => match state {
            Some(WorkspaceModalState::CreatingNew { is_import, .. }) => if name_blank {
                (state, ModalAction::Nothing)
            } else {
                (state, ModalAction::CreateWorkspace { is_import })
            },
            _ => (state, ModalAction::Nothing),
        },
        WorkspaceModalMessage::CancelNew => if workspace_loaded {
            (None, ModalAction::Nothing)
        } else {
            (Some(WorkspaceModalState::Idle), ModalAction::Nothing)
        },
        WorkspaceModalMessage::FilePicker(ev) => picker_step(state, ev, workspace_loaded),
    }
}

/// After a workspace was created, loaded or imported from the dialog: the
/// dialog closes when it worked, and stays (showing the error) when it did
/// not.
pub fn operation_done(state: Option<WorkspaceModalState>, ok: bool) -> (r: Option<WorkspaceModalState>)
    ensures
        r == (if ok {
            None
        } else {
            state
        }),
{
    if ok {
        None
    } else {
        state
    }
}

/// Cancelling, from any screen, never leaves the dialog open on a screen
/// other than the welcome screen, and closes it whenever a workspace is open.
pub proof fn law_cancel_returns_to_welcome_or_closes(
    state: Option<WorkspaceModalState>,
    loaded: bool,
    name_blank: bool,
)
    ensures
        modal_next(state, WorkspaceModalMessage::CancelNew, loaded, name_blank).0 == cancelled(loaded),
        state == Some(WorkspaceModalState::OpeningExisting) ==> modal_next(
            state,
            WorkspaceModalMessage::FilePicker(PickerEvent::Cancel),
            loaded,
            name_blank,
        ).0 == cancelled(loaded),
        state == Some(WorkspaceModalState::ImportingWorkspace) ==> modal_next(
            state,
            WorkspaceModalMessage::FilePicker(PickerEvent::Cancel),
            loaded,
            name_blank,
        ).0 == cancelled(loaded),
{
}

/// A new workspace is created only from the naming screen and only under a
/// name that is not blank.
pub proof fn law_create_needs_a_name(
    state: Option<WorkspaceModalState>,
    msg: WorkspaceModalMessage,
    loaded: bool,
    name_blank: bool,
)
    ensures
        modal_next(state, msg, loaded, name_blank).1 is CreateWorkspace ==> !name_blank && (state matches Some(
            WorkspaceModalState::CreatingNew { .. },
        )),
{
}


/// A file picked in the import screen, clicked or typed, is imported, never
/// opened as a workspace; one picked in the open screen is opened, never
/// imported; and picking keeps the screen until the outcome is reported.
pub proof fn law_picked_file_follows_the_screen(ev: PickerEvent, loaded: bool, name_blank: bool)
    requires
        ev is SelectFile || ev is Confirm,
    ensures
        ({
            let (s, a) = modal_next(
                Some(WorkspaceModalState::ImportingWorkspace),
                WorkspaceModalMessage::FilePicker(ev),
                loaded,
                name_blank,
            );
            &&& a is ImportSelected || a is ImportTyped
            &&& (a is ImportSelected <==> ev is SelectFile)
            &&& s == Some(WorkspaceModalState::ImportingWorkspace)
        }),
        ({
            let (s, a) = modal_next(
                Some(WorkspaceModalState::OpeningExisting),
                WorkspaceModalMessage::FilePicker(ev),
                loaded,
                name_blank,
            );
            &&& a is LoadSelected || a is LoadTyped
            &&& (a is LoadSelected <==> ev is SelectFile)
            &&& s == Some(WorkspaceModalState::OpeningExisting)
        }),
{
}

} // verus!
