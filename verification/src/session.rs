//! The state of the window and what each message does to it.
use crate::db::{FileMetadata, FolderMetadata, SortColumn, SortDirection, VaultStats};
use crate::display::{is_previewable_image, ArchiveEntry, EntryRow, RowView};
use crate::ident::Uuid;
use crate::tables::Tables;
use crate::text::{decimal_text, is_empty_text, text_from_utf8, trim_text};
use std::collections::VecDeque;
use vstd::prelude::*;
use vstd::string::StringExecFns;

verus! {

/// The most files that a listing shows.
pub const PAGE_SIZE: usize = 500;

/// The most bytes that a preview reads.
pub const PREVIEW_BYTES: usize = 262_144;

/// The name of the folder at the top.
pub const ROOT_NAME: &'static str = "/root";

/// How far some work has come.
#[derive(Clone, Copy, Debug, PartialEq, Eq, Structural)]
pub struct Progress {
    pub done: usize,
    pub total: usize,
}

/// The progress of work that has not begun.
pub open spec fn no_progress() -> Progress {
    Progress { done: 0, total: 1 }
}

/// The progress of an import. A file that was announced as empty is complete.
pub fn import_progress(done: usize, total: usize) -> (progress: Progress)
    ensures
        progress == (if total > 0 {
            Progress { done, total }
        } else {
            Progress { done: 1, total: 1 }
        }),
{
    if total > 0 {
        Progress { done, total }
    } else {
        Progress { done: 1, total: 1 }
    }
}

/// The window. The database, the paths and the image of a preview are the caller's; the session
/// only keeps them.
pub struct VaultModel<D, P, T> {
    pub db: Option<D>,
    pub active_vault_path: Option<P>,
    pub current_folder_id: Option<Uuid>,
    pub folder_path_stack: Vec<(Option<Uuid>, String)>,
    pub entries: Vec<EntryRow>,
    pub selected_index: Option<usize>,
    pub stats: VaultStats,
    pub is_loading: bool,
    pub progress: Progress,
    pub status: String,
    pub search_query: String,
    pub sort_column: SortColumn,
    pub sort_direction: SortDirection,
    pub preview_name: String,
    pub preview_meta: String,
    pub preview_text: String,
    pub preview_has_image: bool,
    pub preview_texture: Option<T>,
    pub show_preview_pane: bool,
    pub import_queue: VecDeque<(P, Option<Uuid>)>,
}

/// A folder on the way to the one that is shown.
pub struct PathStep {
    pub folder_id: Option<Uuid>,
    pub name: Seq<char>,
}

/// A row of the list: its entry, its place and its texts.
pub struct EntryView {
    pub entry: ArchiveEntry,
    pub index: int,
    pub shown: RowView,
}

/// The window as a mathematical value.
#[verifier::ext_equal]
pub struct VaultView<D, P, T> {
    pub db: Option<D>,
    pub active_vault_path: Option<P>,
    pub current_folder_id: Option<Uuid>,
    pub folder_path: Seq<PathStep>,
    pub entries: Seq<EntryView>,
    pub selected_index: Option<usize>,
    pub stats: VaultStats,
    pub is_loading: bool,
    pub progress: Progress,
    pub status: Seq<char>,
    pub search_query: Seq<char>,
    pub sort_column: SortColumn,
    pub sort_direction: SortDirection,
    pub preview_name: Seq<char>,
    pub preview_meta: Seq<char>,
    pub preview_text: Seq<char>,
    pub preview_has_image: bool,
    pub preview_texture: Option<T>,
    pub show_preview_pane: bool,
    pub import_queue: Seq<(P, Option<Uuid>)>,
}

/// The views of the folders on the way.
pub open spec fn path_steps(stack: Seq<(Option<Uuid>, String)>) -> Seq<PathStep> {
    Seq::new(stack.len(), |i: int| PathStep { folder_id: stack[i].0, name: stack[i].1@ })
}

/// The views of the rows.
pub open spec fn entry_views(rows: Seq<EntryRow>) -> Seq<EntryView> {
    Seq::new(
        rows.len(),
        |i: int| EntryView { entry: rows[i].entry, index: rows[i].index as int, shown: rows[i]@ },
    )
}

impl<D, P, T> View for VaultModel<D, P, T> {
    type V = VaultView<D, P, T>;

    open spec fn view(&self) -> VaultView<D, P, T> {
        VaultView {
            db: self.db,
            active_vault_path: self.active_vault_path,
            current_folder_id: self.current_folder_id,
            folder_path: path_steps(self.folder_path_stack@),
            entries: entry_views(self.entries@),
            selected_index: self.selected_index,
            stats: self.stats,
            is_loading: self.is_loading,
            progress: self.progress,
            status: self.status@,
            search_query: self.search_query@,
            sort_column: self.sort_column,
            sort_direction: self.sort_direction,
            preview_name: self.preview_name@,
            preview_meta: self.preview_meta@,
            preview_text: self.preview_text@,
            preview_has_image: self.preview_has_image,
            preview_texture: self.preview_texture,
            show_preview_pane: self.show_preview_pane,
            import_queue: self.import_queue@,
        }
    }
}

/// What the window is told.
#[derive(Debug)]
pub enum VaultMsg<D, P, T> {
    PromptCreateVault,
    PromptOpenVault,
    PromptExportVault,
    ExecuteUnlock(P, String, bool),
    VaultUnlocked(D, P, VaultStats),
    LoadCurrentDirectory,
    DirectoryInitialized(Vec<FolderMetadata>, Vec<FileMetadata>),
    LockVault,
    PromptCreateFolder,
    PromptAddFile,
    ImportFilesList(Vec<P>),
    /// The files below the paths of an import list, for a folder.
    FilesFound(Vec<P>, Option<Uuid>),
    ProcessNextImportQueue,
    /// The totals, read anew.
    StatsRefreshed(VaultStats),
    PromptDuplicateEncountered { path: P, folder_id: Option<Uuid>, existing_file_name: String },
    /// The answer on a duplicate, with the name of its file.
    ResolveDuplicate { path: P, file_name: String, folder_id: Option<Uuid>, keep: bool },
    CommitSingleFileImport(P, Option<Uuid>),
    SelectEntry(Option<usize>),
    ActivateEntry(usize),
    NavigateUp,
    PromptRenameSelected(Option<usize>),
    DeleteSelectedItem(Option<usize>),
    PromptExtractFile(Option<usize>),
    SetSearchQuery(String),
    ToggleSort(SortColumn),
    PromptChangePassword,
    ExecuteRekey(String),
    TriggerCompact,
    TriggerIntegrityTest,
    IntegrityVerified(Vec<(String, bool)>),
    ShowQuickLook(usize),
    CloseQuickLook,
    /// The name, the summary and the content of a preview, whether it is to be an image, and the
    /// image where the content could be decoded as one.
    PreviewLoaded(String, String, Option<Vec<u8>>, bool, Option<T>),
    UpdateProgress(Progress, String),
    SetStatus(String),
    SetError(String),
}

/// What the window asks for: work outside it, a question to the reader, or a message to itself.
#[derive(Debug)]
pub enum VaultEffect<P> {
    /// Send `LoadCurrentDirectory`.
    Reload,
    /// Send `ProcessNextImportQueue`.
    ProcessQueue,
    /// Send `ShowQuickLook`.
    QuickLook(usize),
    /// Send `CommitSingleFileImport`.
    Commit(P, Option<Uuid>),
    /// Send `PromptDuplicateEncountered`.
    Duplicate(P, Option<Uuid>, String),
    /// Send `SetStatus`.
    Status(String),
    /// Send `SetError`.
    Fail(String),
    /// Open a database.
    Unlock { path: P, password: String, is_new: bool },
    /// List a folder, or the files that a search finds.
    List {
        folder_id: Option<Uuid>,
        search: Option<String>,
        sort_column: SortColumn,
        sort_direction: SortDirection,
        limit: usize,
    },
    /// Change the key.
    Rekey(String),
    /// Compact the database.
    Compact,
    /// Check every file.
    CheckIntegrity,
    /// Read the front of a file.
    LoadPreview {
        id: Uuid,
        name: String,
        size: usize,
        compressed_size: usize,
        checksum: String,
        created_at: i64,
        is_image: bool,
        max_bytes: usize,
    },
    /// Ask where to copy the archive, and copy it.
    AskBackupTarget,
    /// Make a folder.
    CreateFolder { name: String, parent_id: Option<Uuid> },
    /// Find the files below some paths, and send `FilesFound` at once.
    ExpandPaths(Vec<P>, Option<Uuid>),
    /// Read the totals, and send `StatsRefreshed` at once if that succeeds.
    RefreshStats,
    /// Hash a file and look for its content.
    HashFile(P, Option<Uuid>),
    /// Ask what to do with a duplicate.
    AskDuplicate(P, Option<Uuid>, String),
    /// Import a file.
    Import(P, Option<Uuid>),
    /// Ask for a new name, and rename.
    AskRename { id: Uuid, name: String, is_folder: bool },
    /// Delete a file or a folder.
    Delete { id: Uuid, is_folder: bool },
    /// Ask where to extract a file, and extract it.
    AskExtract { id: Uuid, name: String, total_size: usize },
    /// Show a message.
    Alert { title: String, message: String },
}

/// A request as a mathematical value.
pub enum EffectView<P> {
    Reload,
    ProcessQueue,
    QuickLook(int),
    Commit(P, Option<Uuid>),
    Duplicate(P, Option<Uuid>, Seq<char>),
    Status(Seq<char>),
    Fail(Seq<char>),
    Unlock { path: P, password: Seq<char>, is_new: bool },
    List {
        folder_id: Option<Uuid>,
        search: Option<Seq<char>>,
        sort_column: SortColumn,
        sort_direction: SortDirection,
        limit: int,
    },
    Rekey(Seq<char>),
    Compact,
    CheckIntegrity,
    LoadPreview {
        id: Uuid,
        name: Seq<char>,
        size: int,
        compressed_size: int,
        checksum: Seq<char>,
        created_at: int,
        is_image: bool,
        max_bytes: int,
    },
    AskBackupTarget,
    CreateFolder { name: Seq<char>, parent_id: Option<Uuid> },
    ExpandPaths(Seq<P>, Option<Uuid>),
    RefreshStats,
    HashFile(P, Option<Uuid>),
    AskDuplicate(P, Option<Uuid>, Seq<char>),
    Import(P, Option<Uuid>),
    AskRename { id: Uuid, name: Seq<char>, is_folder: bool },
    Delete { id: Uuid, is_folder: bool },
    AskExtract { id: Uuid, name: Seq<char>, total_size: int },
    Alert { title: Seq<char>, message: Seq<char> },
}

impl<P> View for VaultEffect<P> {
    type V = EffectView<P>;

    open spec fn view(&self) -> EffectView<P> {
        match *self {
            VaultEffect::Reload => EffectView::Reload,
            VaultEffect::ProcessQueue => EffectView::ProcessQueue,
            VaultEffect::QuickLook(i) => EffectView::QuickLook(i as int),
            VaultEffect::Commit(p, f) => EffectView::Commit(p, f),
            VaultEffect::Duplicate(p, f, name) => EffectView::Duplicate(p, f, name@),
            VaultEffect::Status(text) => EffectView::Status(text@),
            VaultEffect::Fail(text) => EffectView::Fail(text@),
            VaultEffect::Unlock { path, password, is_new } => EffectView::Unlock {
                path,
                password: password@,
                is_new,
            },
            VaultEffect::List { folder_id, search, sort_column, sort_direction, limit } =>
                EffectView::List {
                folder_id,
                search: crate::text::option_text(search),
                sort_column,
                sort_direction,
                limit: limit as int,
            },
            VaultEffect::Rekey(password) => EffectView::Rekey(password@),
            VaultEffect::Compact => EffectView::Compact,
            VaultEffect::CheckIntegrity => EffectView::CheckIntegrity,
            VaultEffect::LoadPreview {
                id,
                name,
                size,
                compressed_size,
                checksum,
                created_at,
                is_image,
                max_bytes,
            } => EffectView::LoadPreview {
                id,
                name: name@,
                size: size as int,
                compressed_size: compressed_size as int,
                checksum: checksum@,
                created_at: created_at as int,
                is_image,
                max_bytes: max_bytes as int,
            },
            VaultEffect::AskBackupTarget => EffectView::AskBackupTarget,
            VaultEffect::CreateFolder { name, parent_id } => EffectView::CreateFolder {
                name: name@,
                parent_id,
            },
            VaultEffect::ExpandPaths(paths, f) => EffectView::ExpandPaths(paths@, f),
            VaultEffect::RefreshStats => EffectView::RefreshStats,
            VaultEffect::HashFile(p, f) => EffectView::HashFile(p, f),
            VaultEffect::AskDuplicate(p, f, name) => EffectView::AskDuplicate(p, f, name@),
            VaultEffect::Import(p, f) => EffectView::Import(p, f),
            VaultEffect::AskRename { id, name, is_folder } => EffectView::AskRename {
                id,
                name: name@,
                is_folder,
            },
            VaultEffect::Delete { id, is_folder } => EffectView::Delete { id, is_folder },
            VaultEffect::AskExtract { id, name, total_size } => EffectView::AskExtract {
                id,
                name: name@,
                total_size: total_size as int,
            },
            VaultEffect::Alert { title, message } => EffectView::Alert {
                title: title@,
                message: message@,
            },
        }
    }
}

/// The views of some requests.
pub open spec fn effect_views<P>(effects: Seq<VaultEffect<P>>) -> Seq<EffectView<P>> {
    Seq::new(effects.len(), |i: int| effects[i]@)
}

/// The path to the folder at the top.
pub open spec fn root_path() -> Seq<PathStep> {
    seq![PathStep { folder_id: None, name: ROOT_NAME@ }]
}

/// The other direction.
pub open spec fn reversed(direction: SortDirection) -> SortDirection {
    match direction {
        SortDirection::Asc => SortDirection::Desc,
        SortDirection::Desc => SortDirection::Asc,
    }
}

/// What a listing shows: the folders, then the files, numbered from zero.
pub open spec fn listed(folders: Seq<FolderMetadata>, files: Seq<FileMetadata>) -> Seq<EntryView> {
    Seq::new(
        folders.len() + files.len(),
        |i: int|
            {
                let entry = if i < folders.len() {
                    ArchiveEntry::Folder(folders[i])
                } else {
                    ArchiveEntry::File(files[i - folders.len()])
                };
                EntryView { entry, index: i, shown: crate::display::row_of(entry) }
            },
    )
}

/// How many files failed their check.
pub open spec fn failures(results: Seq<(String, bool)>) -> nat
    decreases results.len(),
{
    if results.len() == 0 {
        0
    } else {
        failures(results.drop_last()) + (if results.last().1 {
            0nat
        } else {
            1nat
        })
    }
}

/// What is said of some checks, as a status and as a message with its title.
pub open spec fn check_report(results: Seq<(String, bool)>) -> (Seq<char>, Seq<char>, Seq<char>) {
    if failures(results) == 0 {
        (
            "Integrity check passed! Verified "@ + crate::text::decimal(results.len())
                + " files."@,
            "Integrity Check: PASSED"@,
            "All "@ + crate::text::decimal(results.len())
                + " files passed BLAKE3 checksum and Zstandard decompression verification without any errors."@,
        )
    } else {
        let text = "Integrity Check FAILED! "@ + crate::text::decimal(failures(results))
            + " corrupted file(s) found."@;
        (text, "Integrity Warning"@, text)
    }
}

/// The text that a preview shows of content.
pub open spec fn content_text(bytes: Seq<u8>) -> Seq<char> {
    if vstd::utf8::valid_utf8(bytes) {
        vstd::utf8::decode_utf8(bytes)
    } else {
        "[Binary Content - Text Preview Unavailable]"@
    }
}

/// The row that a command is about: the one it names, or else the selected one.
pub open spec fn chosen<D, P, T>(v: VaultView<D, P, T>, target: Option<usize>) -> Option<
    ArchiveEntry,
> {
    let index = match target {
        Some(i) => Some(i),
        None => v.selected_index,
    };
    match index {
        Some(i) => if i < v.entries.len() {
            Some(v.entries[i as int].entry)
        } else {
            None
        },
        None => None,
    }
}

/// The search that a listing is to make: none where the query is blank.
pub open spec fn search_of(query: Seq<char>) -> Option<Seq<char>> {
    if crate::text::trimmed(query).len() == 0 {
        None
    } else {
        Some(query)
    }
}

/// The window after a message.
pub open spec fn updated<D, P, T>(v: VaultView<D, P, T>, msg: VaultMsg<D, P, T>) -> VaultView<
    D,
    P,
    T,
> {
    match msg {
        VaultMsg::PromptCreateVault => v,
        VaultMsg::PromptOpenVault => v,
        VaultMsg::PromptAddFile => v,
        VaultMsg::PromptChangePassword => v,
        VaultMsg::PromptExportVault => v,
        VaultMsg::ExecuteUnlock(_, _, _) => VaultView {
            is_loading: true,
            progress: no_progress(),
            status: "Verifying SQLCipher & Zstd headers..."@,
            ..v
        },
        VaultMsg::VaultUnlocked(db, path, stats) => VaultView {
            db: Some(db),
            active_vault_path: Some(path),
            current_folder_id: None,
            folder_path: root_path(),
            stats,
            is_loading: false,
            status: "Archive opened"@,
            ..v
        },
        VaultMsg::LoadCurrentDirectory => if v.db is Some {
            VaultView { is_loading: true, ..v }
        } else {
            v
        },
        VaultMsg::DirectoryInitialized(folders, files) => VaultView {
            entries: listed(folders@, files@),
            selected_index: None,
            is_loading: false,
            status: "Ready"@,
            ..v
        },
        VaultMsg::LockVault => VaultView {
            db: None,
            active_vault_path: None,
            current_folder_id: None,
            folder_path: Seq::empty(),
            entries: Seq::empty(),
            selected_index: None,
            show_preview_pane: false,
            stats: VaultStats { total_files: 0, total_bytes: 0, compressed_bytes: 0 },
            import_queue: Seq::empty(),
            status: "Archive locked"@,
            ..v
        },
        VaultMsg::PromptCreateFolder => v,
        VaultMsg::ImportFilesList(_) => v,
        VaultMsg::FilesFound(files, folder_id) => VaultView {
            import_queue: v.import_queue + Seq::new(
                files@.len(),
                |i: int| (files@[i], folder_id),
            ),
            ..v
        },
        VaultMsg::ProcessNextImportQueue => if v.import_queue.len() > 0 {
            VaultView {
                import_queue: v.import_queue.drop_first(),
                is_loading: v.is_loading || v.db is Some,
                ..v
            }
        } else {
            VaultView {
                is_loading: false,
                progress: no_progress(),
                status: "All items processed."@,
                ..v
            }
        },
        VaultMsg::StatsRefreshed(stats) => VaultView { stats, ..v },
        VaultMsg::PromptDuplicateEncountered { .. } => v,
        VaultMsg::ResolveDuplicate { file_name, keep, .. } => if keep {
            v
        } else {
            VaultView { status: "Skipped duplicate: "@ + file_name@, ..v }
        },
        VaultMsg::CommitSingleFileImport(_, _) => v,
        VaultMsg::SelectEntry(index) => VaultView {
            selected_index: match index {
                Some(i) => if i < v.entries.len() {
                    Some(i)
                } else {
                    None
                },
                None => None,
            },
            ..v
        },
        VaultMsg::ActivateEntry(index) => match chosen(v, Some(index)) {
            Some(ArchiveEntry::Folder(f)) => VaultView {
                current_folder_id: Some(f.id),
                folder_path: v.folder_path.push(
                    PathStep { folder_id: Some(f.id), name: f.name@ },
                ),
                ..v
            },
            _ => v,
        },
        VaultMsg::NavigateUp => if v.folder_path.len() > 1 {
            VaultView {
                folder_path: v.folder_path.drop_last(),
                current_folder_id: v.folder_path[v.folder_path.len() - 2].folder_id,
                ..v
            }
        } else {
            v
        },
        VaultMsg::PromptRenameSelected(_) => v,
        VaultMsg::DeleteSelectedItem(target) => if chosen(v, target) is Some && v.db is Some {
            VaultView { is_loading: true, ..v }
        } else {
            v
        },
        VaultMsg::PromptExtractFile(_) => v,
        VaultMsg::SetSearchQuery(query) => VaultView { search_query: query@, ..v },
        VaultMsg::ToggleSort(column) => if v.sort_column == column {
            VaultView { sort_direction: reversed(v.sort_direction), ..v }
        } else {
            VaultView { sort_column: column, sort_direction: SortDirection::Asc, ..v }
        },
        VaultMsg::ExecuteRekey(_) => if v.db is Some {
            VaultView { is_loading: true, ..v }
        } else {
            v
        },
        VaultMsg::TriggerCompact => if v.db is Some {
            VaultView { is_loading: true, status: "Compacting database pages (VACUUM)..."@, ..v }
        } else {
            v
        },
        VaultMsg::TriggerIntegrityTest => if v.db is Some {
            VaultView { is_loading: true, status: "Checking BLAKE3 chunk hashes..."@, ..v }
        } else {
            v
        },
        VaultMsg::IntegrityVerified(results) => VaultView {
            is_loading: false,
            progress: no_progress(),
            status: check_report(results@).0,
            ..v
        },
        VaultMsg::ShowQuickLook(index) => match chosen(v, Some(index)) {
            Some(ArchiveEntry::File(_)) => VaultView { is_loading: true, ..v },
            _ => v,
        },
        VaultMsg::CloseQuickLook => VaultView {
            show_preview_pane: false,
            preview_texture: None,
            ..v
        },
        VaultMsg::PreviewLoaded(name, meta, data, is_image, texture) => {
            let shown = VaultView {
                is_loading: false,
                preview_name: name@,
                preview_meta: meta@,
                show_preview_pane: true,
                ..v
            };
            match data {
                Some(bytes) => if is_image {
                    match texture {
                        Some(image) => VaultView {
                            preview_texture: Some(image),
                            preview_has_image: true,
                            ..shown
                        },
                        None => VaultView {
                            preview_has_image: false,
                            preview_text: "[Image format decoding unsupported]"@,
                            ..shown
                        },
                    }
                } else {
                    VaultView {
                        preview_has_image: false,
                        preview_text: content_text(bytes@),
                        ..shown
                    }
                },
                None => VaultView {
                    preview_has_image: false,
                    preview_text: "[No Preview Available]"@,
                    ..shown
                },
            }
        },
        VaultMsg::UpdateProgress(progress, text) => VaultView {
            is_loading: true,
            progress,
            status: text@,
            ..v
        },
        VaultMsg::SetStatus(text) => VaultView {
            status: text@,
            is_loading: false,
            progress: no_progress(),
            ..v
        },
        VaultMsg::SetError(text) => VaultView {
            status: "Error: "@ + text@,
            is_loading: false,
            progress: no_progress(),
            ..v
        },
    }
}

/// What the window asks for on a message, in order.
pub open spec fn requested<D, P, T>(v: VaultView<D, P, T>, msg: VaultMsg<D, P, T>) -> Seq<
    EffectView<P>,
> {
    match msg {
        VaultMsg::ExecuteUnlock(path, password, is_new) => seq![
            EffectView::Unlock { path, password: password@, is_new },
        ],
        VaultMsg::VaultUnlocked(_, _, _) => seq![EffectView::Reload],
        VaultMsg::LoadCurrentDirectory => if v.db is Some {
            seq![
                EffectView::List {
                    folder_id: v.current_folder_id,
                    search: search_of(v.search_query),
                    sort_column: v.sort_column,
                    sort_direction: v.sort_direction,
                    limit: PAGE_SIZE as int,
                },
            ]
        } else {
            seq![]
        },
        VaultMsg::SetSearchQuery(_) => seq![EffectView::Reload],
        VaultMsg::ToggleSort(_) => seq![EffectView::Reload],
        VaultMsg::ExecuteRekey(password) => if v.db is Some {
            seq![EffectView::Rekey(password@)]
        } else {
            seq![]
        },
        VaultMsg::TriggerCompact => if v.db is Some {
            seq![EffectView::Compact]
        } else {
            seq![]
        },
        VaultMsg::TriggerIntegrityTest => if v.db is Some {
            seq![EffectView::CheckIntegrity]
        } else {
            seq![]
        },
        VaultMsg::IntegrityVerified(results) => seq![
            EffectView::Alert {
                title: check_report(results@).1,
                message: check_report(results@).2,
            },
        ],
        VaultMsg::ShowQuickLook(index) => match chosen(v, Some(index)) {
            Some(ArchiveEntry::File(f)) => if v.db is Some {
                seq![
                    EffectView::LoadPreview {
                        id: f.id,
                        name: f.name@,
                        size: f.size as int,
                        compressed_size: f.compressed_size as int,
                        checksum: f.checksum@,
                        created_at: f.created_at as int,
                        is_image: crate::display::shown_as_image(
                            crate::display::extension(f.name@),
                        ),
                        max_bytes: PREVIEW_BYTES as int,
                    },
                ]
            } else {
                seq![]
            },
            _ => seq![],
        },
        VaultMsg::PromptExportVault => if v.active_vault_path is Some {
            seq![EffectView::AskBackupTarget]
        } else {
            seq![]
        },
        VaultMsg::PromptCreateFolder => if v.db is Some {
            seq![
                EffectView::CreateFolder { name: "NewFolder"@, parent_id: v.current_folder_id },
            ]
        } else {
            seq![]
        },
        VaultMsg::ImportFilesList(paths) => if v.db is Some {
            seq![EffectView::ExpandPaths(paths@, v.current_folder_id)]
        } else {
            seq![EffectView::Fail("Unlock or create an archive before dropping items."@)]
        },
        VaultMsg::FilesFound(_, _) => seq![EffectView::ProcessQueue],
        VaultMsg::ProcessNextImportQueue => if v.import_queue.len() > 0 {
            if v.db is Some {
                seq![EffectView::HashFile(v.import_queue[0].0, v.import_queue[0].1)]
            } else {
                seq![]
            }
        } else if v.db is Some {
            seq![EffectView::RefreshStats, EffectView::Reload]
        } else {
            seq![EffectView::Reload]
        },
        VaultMsg::PromptDuplicateEncountered { path, folder_id, existing_file_name } => seq![
            EffectView::AskDuplicate(path, folder_id, existing_file_name@),
        ],
        VaultMsg::ResolveDuplicate { path, folder_id, keep, .. } => if keep {
            seq![EffectView::Commit(path, folder_id)]
        } else {
            seq![EffectView::ProcessQueue]
        },
        VaultMsg::CommitSingleFileImport(path, folder_id) => if v.db is Some {
            seq![EffectView::Import(path, folder_id)]
        } else {
            seq![]
        },
        VaultMsg::ActivateEntry(index) => match chosen(v, Some(index)) {
            Some(ArchiveEntry::Folder(_)) => seq![EffectView::Reload],
            Some(ArchiveEntry::File(_)) => seq![EffectView::QuickLook(index as int)],
            None => seq![],
        },
        VaultMsg::NavigateUp => if v.folder_path.len() > 1 {
            seq![EffectView::Reload]
        } else {
            seq![]
        },
        VaultMsg::PromptRenameSelected(target) => match chosen(v, target) {
            Some(ArchiveEntry::Folder(f)) => seq![
                EffectView::AskRename { id: f.id, name: f.name@, is_folder: true },
            ],
            Some(ArchiveEntry::File(f)) => seq![
                EffectView::AskRename { id: f.id, name: f.name@, is_folder: false },
            ],
            None => seq![],
        },
        VaultMsg::DeleteSelectedItem(target) => if v.db is Some {
            match chosen(v, target) {
                Some(ArchiveEntry::Folder(f)) => seq![
                    EffectView::Delete { id: f.id, is_folder: true },
                ],
                Some(ArchiveEntry::File(f)) => seq![
                    EffectView::Delete { id: f.id, is_folder: false },
                ],
                None => seq![],
            }
        } else {
            seq![]
        },
        VaultMsg::PromptExtractFile(target) => match chosen(v, target) {
            Some(ArchiveEntry::File(f)) => seq![
                EffectView::AskExtract { id: f.id, name: f.name@, total_size: f.size as int },
            ],
            _ => seq![],
        },
        VaultMsg::SetError(text) => seq![
            EffectView::Alert { title: "Warning / Error"@, message: text@ },
        ],
        _ => seq![],
    }
}

/// The window before anything was opened.
pub open spec fn initial<D, P, T>() -> VaultView<D, P, T> {
    VaultView {
        db: None,
        active_vault_path: None,
        current_folder_id: None,
        folder_path: root_path(),
        entries: Seq::empty(),
        selected_index: None,
        stats: VaultStats { total_files: 0, total_bytes: 0, compressed_bytes: 0 },
        is_loading: false,
        progress: no_progress(),
        status: "Drag files here to compress & encrypt."@,
        search_query: Seq::empty(),
        sort_column: SortColumn::Name,
        sort_direction: SortDirection::Asc,
        preview_name: Seq::empty(),
        preview_meta: Seq::empty(),
        preview_text: Seq::empty(),
        preview_has_image: false,
        preview_texture: None,
        show_preview_pane: false,
        import_queue: Seq::empty(),
    }
}

/// No request.
fn nothing<P>() -> (effects: Vec<VaultEffect<P>>)
    ensures
        effect_views(effects@) == Seq::<EffectView<P>>::empty(),
{
    let effects: Vec<VaultEffect<P>> = Vec::new();
    proof {
        assert(effect_views(effects@) =~= Seq::empty());
    }
    effects
}

/// One request.
fn just<P>(effect: VaultEffect<P>) -> (effects: Vec<VaultEffect<P>>)
    ensures
        effect_views(effects@) == seq![effect@],
{
    let mut effects: Vec<VaultEffect<P>> = Vec::new();
    effects.push(effect);
    proof {
        assert(effect_views(effects@) =~= seq![effect@]);
    }
    effects
}

/// Two requests.
fn both<P>(first: VaultEffect<P>, second: VaultEffect<P>) -> (effects: Vec<VaultEffect<P>>)
    ensures
        effect_views(effects@) == seq![first@, second@],
{
    let mut effects: Vec<VaultEffect<P>> = Vec::new();
    effects.push(first);
    effects.push(second);
    proof {
        assert(effect_views(effects@) =~= seq![first@, second@]);
    }
    effects
}

/// The way to the folder at the top.
fn root_stack() -> (stack: Vec<(Option<Uuid>, String)>)
    ensures
        path_steps(stack@) == root_path(),
{
    let mut stack: Vec<(Option<Uuid>, String)> = Vec::new();
    stack.push((None, ROOT_NAME.to_string()));
    proof {
        assert(path_steps(stack@) =~= root_path());
    }
    stack
}

/// Counts the files that failed their check.
fn count_failures(results: &[(String, bool)]) -> (count: usize)
    ensures
        count == failures(results@),
{
    let mut count: usize = 0;
    let mut i: usize = 0;
    while i < results.len()
        invariant
            i <= results@.len(),
            count <= i,
            count == failures(results@.subrange(0, i as int)),
        decreases results.len() - i,
    {
        proof {
            assert(results@.subrange(0, i + 1).drop_last() =~= results@.subrange(0, i as int));
        }
        if !results[i].1 {
            count += 1;
        }
        i += 1;
    }
    proof {
        assert(results@.subrange(0, i as int) =~= results@);
    }
    count
}

/// What is said of some checks: the status, the title and the message.
fn report_checks(results: &[(String, bool)]) -> (report: (String, String, String))
    ensures
        (report.0@, report.1@, report.2@) == check_report(results@),
{
    let corrupt: usize = count_failures(results);
    if corrupt == 0 {
        let mut status = "Integrity check passed! Verified ".to_string();
        status.append(decimal_text(results.len() as u64).as_str());
        status.append(" files.");
        let mut message = "All ".to_string();
        message.append(decimal_text(results.len() as u64).as_str());
        message.append(
            " files passed BLAKE3 checksum and Zstandard decompression verification without any errors.",
        );
        (status, "Integrity Check: PASSED".to_string(), message)
    } else {
        let mut text = "Integrity Check FAILED! ".to_string();
        text.append(decimal_text(corrupt as u64).as_str());
        text.append(" corrupted file(s) found.");
        let message = text.as_str().to_string();
        (text, "Integrity Warning".to_string(), message)
    }
}

impl<D, P, T> VaultModel<D, P, T> {
    /// The window before anything was opened.
    pub fn init() -> (model: VaultModel<D, P, T>)
        ensures
            model@ == initial::<D, P, T>(),
    {
        let model = VaultModel {
            db: None,
            active_vault_path: None,
            current_folder_id: None,
            folder_path_stack: root_stack(),
            entries: Vec::new(),
            selected_index: None,
            stats: VaultStats { total_files: 0, total_bytes: 0, compressed_bytes: 0 },
            is_loading: false,
            progress: Progress { done: 0, total: 1 },
            status: "Drag files here to compress & encrypt.".to_string(),
            search_query: String::new(),
            sort_column: SortColumn::Name,
            sort_direction: SortDirection::Asc,
            preview_name: String::new(),
            preview_meta: String::new(),
            preview_text: String::new(),
            preview_has_image: false,
            preview_texture: None,
            show_preview_pane: false,
            import_queue: VecDeque::new(),
        };
        proof {
            assert(model@ =~= initial::<D, P, T>());
        }
        model
    }

    /// Whether an archive can be made or opened.
    pub fn can_open(&self) -> (sensitive: bool)
        ensures
            sensitive == !self.is_loading,
    {
        !self.is_loading
    }

    /// Whether the commands on an open archive can be given.
    pub fn can_edit(&self) -> (sensitive: bool)
        ensures
            sensitive == (self.db is Some && !self.is_loading),
    {
        self.db.is_some() && !self.is_loading
    }

    /// Whether the selected entry can be extracted.
    pub fn can_extract(&self) -> (sensitive: bool)
        ensures
            sensitive == (self.selected_index is Some && !self.is_loading),
    {
        self.selected_index.is_some() && !self.is_loading
    }

    /// Whether there is a folder above.
    pub fn can_navigate_up(&self) -> (sensitive: bool)
        ensures
            sensitive == (self.current_folder_id is Some && !self.is_loading),
    {
        self.current_folder_id.is_some() && !self.is_loading
    }

    /// The way to the folder that is shown, for the reader.
    pub fn location(&self) -> (text: String)
        ensures
            text@ == location_text(self@.folder_path),
    {
        let mut text = String::new();
        let mut i: usize = 0;
        proof {
            assert(self@.folder_path.subrange(0, 0) =~= Seq::empty());
        }
        while i < self.folder_path_stack.len()
            invariant
                i <= self.folder_path_stack@.len(),
                text@ == location_text(self@.folder_path.subrange(0, i as int)),
            decreases self.folder_path_stack.len() - i,
        {
            proof {
                assert(self@.folder_path.subrange(0, i + 1).drop_last()
                    =~= self@.folder_path.subrange(0, i as int));
                assert(self@.folder_path[i as int].name == self.folder_path_stack@[i as int].1@);
            }
            if i > 0 {
                text.append("/");
            }
            text.append(self.folder_path_stack[i].1.as_str());
            proof {
                if i == 0 {
                    assert(text@ =~= self@.folder_path[0].name);
                }
            }
            i += 1;
        }
        proof {
            assert(self@.folder_path.subrange(0, i as int) =~= self@.folder_path);
        }
        text
    }

    /// The row that a command is about: the one it names, or else the selected one.
    fn chosen_row(&self, target: Option<usize>) -> (row: Option<&EntryRow>)
        ensures
            match row {
                Some(r) => chosen(self@, target) == Some(r.entry),
                None => chosen(self@, target) is None,
            },
    {
        let index = match target {
            Some(i) => Some(i),
            None => self.selected_index,
        };
        match index {
            Some(i) => if i < self.entries.len() {
                Some(&self.entries[i])
            } else {
                None
            },
            None => None,
        }
    }

    /// Shows the folders and the files of a listing.
    fn show_directory(&mut self, folders: Vec<FolderMetadata>, files: Vec<FileMetadata>)
        ensures
            final(self)@ == updated(old(self)@, VaultMsg::DirectoryInitialized(folders, files)),
    {
        let mut rows: Vec<EntryRow> = Vec::new();
        let ghost all = listed(folders@, files@);
        proof {
            assert(entry_views(rows@) =~= all.subrange(0, 0));
        }
        for folder in it: folders
            invariant
                it.seq() == folders@,
                all == listed(folders@, files@),
                rows@.len() == it.index(),
                entry_views(rows@) == all.subrange(0, rows@.len() as int),
        {
            let index: usize = rows.len();
            let row = EntryRow::init_model(ArchiveEntry::Folder(folder), index);
            rows.push(row);
            proof {
                assert(entry_views(rows@) =~= all.subrange(0, index + 1));
            }
        }
        for file in it: files
            invariant
                it.seq() == files@,
                all == listed(folders@, files@),
                rows@.len() == folders@.len() + it.index(),
                entry_views(rows@) == all.subrange(0, rows@.len() as int),
        {
            let index: usize = rows.len();
            let row = EntryRow::init_model(ArchiveEntry::File(file), index);
            rows.push(row);
            proof {
                assert(entry_views(rows@) =~= all.subrange(0, index + 1));
            }
        }
        proof {
            assert(all.subrange(0, all.len() as int) =~= all);
        }
        self.entries = rows;
        self.selected_index = None;
        self.is_loading = false;
        self.status = "Ready".to_string();
        proof {
            assert(self@ =~= updated(
                old(self)@,
                VaultMsg::DirectoryInitialized(folders, files),
            ));
        }
    }

    /// Puts some files behind those that wait for their import.
    fn enqueue(&mut self, files: Vec<P>, folder_id: Option<Uuid>)
        ensures
            final(self)@ == updated(old(self)@, VaultMsg::FilesFound(files, folder_id)),
    {
        let ghost added = Seq::new(files@.len(), |i: int| (files@[i], folder_id));
        proof {
            assert(self@.import_queue =~= old(self)@.import_queue + added.subrange(0, 0));
        }
        for path in it: files
            invariant
                it.seq() == files@,
                added == Seq::new(files@.len(), |i: int| (files@[i], folder_id)),
                self@ == (VaultView {
                    import_queue: old(self)@.import_queue + added.subrange(0, it.index()),
                    ..old(self)@
                }),
        {
            self.import_queue.push_back((path, folder_id));
            proof {
                assert(self@ =~= (VaultView {
                    import_queue: old(self)@.import_queue + added.subrange(0, it.index() + 1),
                    ..old(self)@
                }));
            }
        }
        proof {
            assert(added.subrange(0, added.len() as int) =~= added);
        }
    }

    /// Shows a preview.
    fn show_preview(
        &mut self,
        name: String,
        meta: String,
        data: Option<Vec<u8>>,
        is_image: bool,
        texture: Option<T>,
    )
        ensures
            final(self)@ == updated(
                old(self)@,
                VaultMsg::PreviewLoaded(name, meta, data, is_image, texture),
            ),
    {
        self.is_loading = false;
        self.preview_name = name;
        self.preview_meta = meta;
        self.show_preview_pane = true;
        match data {
            Some(bytes) => if is_image {
                match texture {
                    Some(image) => {
                        self.preview_texture = Some(image);
                        self.preview_has_image = true;
                    },
                    None => {
                        self.preview_has_image = false;
                        self.preview_text = "[Image format decoding unsupported]".to_string();
                    },
                }
            } else {
                self.preview_has_image = false;
                self.preview_text = match text_from_utf8(bytes) {
                    Some(text) => text,
                    None => "[Binary Content - Text Preview Unavailable]".to_string(),
                };
            },
            None => {
                self.preview_has_image = false;
                self.preview_text = "[No Preview Available]".to_string();
            },
        }
    }

    /// Takes the next file from those that wait for their import.
    fn process_queue(&mut self) -> (effects: Vec<VaultEffect<P>>)
        ensures
            final(self)@ == updated(old(self)@, VaultMsg::ProcessNextImportQueue),
            effect_views(effects@) == requested(old(self)@, VaultMsg::ProcessNextImportQueue),
    {
        match self.import_queue.pop_front() {
            Some((path, folder_id)) => {
                proof {
                    assert(self@.import_queue =~= old(self)@.import_queue.drop_first());
                }
                if self.db.is_some() {
                    self.is_loading = true;
                    just(VaultEffect::HashFile(path, folder_id))
                } else {
                    nothing()
                }
            },
            None => {
                self.is_loading = false;
                self.progress = Progress { done: 0, total: 1 };
                self.status = "All items processed.".to_string();
                if self.db.is_some() {
                    both(VaultEffect::RefreshStats, VaultEffect::Reload)
                } else {
                    just(VaultEffect::Reload)
                }
            },
        }
    }

    /// Opens a folder, or asks for the preview of a file.
    fn activate(&mut self, index: usize) -> (effects: Vec<VaultEffect<P>>)
        ensures
            final(self)@ == updated(old(self)@, VaultMsg::ActivateEntry(index)),
            effect_views(effects@) == requested(old(self)@, VaultMsg::ActivateEntry(index)),
    {
        if index >= self.entries.len() {
            return nothing();
        }
        let opened = match &self.entries[index].entry {
            ArchiveEntry::Folder(f) => Some((f.id, f.name.as_str().to_string())),
            ArchiveEntry::File(_) => None,
        };
        match opened {
            Some((id, name)) => {
                self.current_folder_id = Some(id);
                self.folder_path_stack.push((Some(id), name));
                proof {
                    assert(self@.folder_path =~= old(self)@.folder_path.push(
                        PathStep { folder_id: Some(id), name: name@ },
                    ));
                }
                just(VaultEffect::Reload)
            },
            None => just(VaultEffect::QuickLook(index)),
        }
    }

    /// Goes to the folder above.
    fn navigate_up(&mut self) -> (effects: Vec<VaultEffect<P>>)
        ensures
            final(self)@ == updated(old(self)@, VaultMsg::NavigateUp),
            effect_views(effects@) == requested(old(self)@, VaultMsg::NavigateUp),
    {
        if self.folder_path_stack.len() > 1 {
            let _ = self.folder_path_stack.pop();
            self.current_folder_id = self.folder_path_stack[self.folder_path_stack.len() - 1].0;
            proof {
                assert(self@.folder_path =~= old(self)@.folder_path.drop_last());
            }
            just(VaultEffect::Reload)
        } else {
            nothing()
        }
    }

    /// Asks for the preview of a file.
    fn quick_look(&mut self, index: usize) -> (effects: Vec<VaultEffect<P>>)
        ensures
            final(self)@ == updated(old(self)@, VaultMsg::ShowQuickLook(index)),
            effect_views(effects@) == requested(old(self)@, VaultMsg::ShowQuickLook(index)),
    {
        if index >= self.entries.len() {
            return nothing();
        }
        let effect = match &self.entries[index].entry {
            ArchiveEntry::Folder(_) => return nothing(),
            ArchiveEntry::File(f) => VaultEffect::LoadPreview {
                id: f.id,
                name: f.name.as_str().to_string(),
                size: f.size,
                compressed_size: f.compressed_size,
                checksum: f.checksum.as_str().to_string(),
                created_at: f.created_at,
                is_image: is_previewable_image(f.name.as_str()),
                max_bytes: PREVIEW_BYTES,
            },
        };
        self.is_loading = true;
        if self.db.is_some() {
            just(effect)
        } else {
            nothing()
        }
    }

    /// Asks for the deletion of an entry.
    fn delete_entry(&mut self, target: Option<usize>) -> (effects: Vec<VaultEffect<P>>)
        ensures
            final(self)@ == updated(old(self)@, VaultMsg::DeleteSelectedItem(target)),
            effect_views(effects@) == requested(old(self)@, VaultMsg::DeleteSelectedItem(target)),
    {
        let (id, is_folder) = match self.chosen_row(target) {
            None => return nothing(),
            Some(row) => match &row.entry {
                ArchiveEntry::Folder(f) => (f.id, true),
                ArchiveEntry::File(f) => (f.id, false),
            },
        };
        if self.db.is_some() {
            self.is_loading = true;
            just(VaultEffect::Delete { id, is_folder })
        } else {
            nothing()
        }
    }

    /// Asks for a new name of an entry.
    fn rename_entry(&self, target: Option<usize>) -> (effects: Vec<VaultEffect<P>>)
        ensures
            effect_views(effects@) == requested(
                self@,
                VaultMsg::<D, P, T>::PromptRenameSelected(target),
            ),
    {
        match self.chosen_row(target) {
            None => nothing(),
            Some(row) => match &row.entry {
                ArchiveEntry::Folder(f) => just(
                    VaultEffect::AskRename {
                        id: f.id,
                        name: f.name.as_str().to_string(),
                        is_folder: true,
                    },
                ),
                ArchiveEntry::File(f) => just(
                    VaultEffect::AskRename {
                        id: f.id,
                        name: f.name.as_str().to_string(),
                        is_folder: false,
                    },
                ),
            },
        }
    }

    /// Asks where to extract a file.
    fn extract_entry(&self, target: Option<usize>) -> (effects: Vec<VaultEffect<P>>)
        ensures
            effect_views(effects@) == requested(
                self@,
                VaultMsg::<D, P, T>::PromptExtractFile(target),
            ),
    {
        match self.chosen_row(target) {
            None => nothing(),
            Some(row) => match &row.entry {
                ArchiveEntry::Folder(_) => nothing(),
                ArchiveEntry::File(f) => just(
                    VaultEffect::AskExtract {
                        id: f.id,
                        name: f.name.as_str().to_string(),
                        total_size: f.size,
                    },
                ),
            },
        }
    }

    /// Closes the archive.
    fn lock(&mut self)
        ensures
            final(self)@ == updated(old(self)@, VaultMsg::LockVault),
    {
        self.db = None;
        self.active_vault_path = None;
        self.current_folder_id = None;
        self.folder_path_stack.clear();
        self.entries.clear();
        self.selected_index = None;
        self.show_preview_pane = false;
        self.stats = VaultStats { total_files: 0, total_bytes: 0, compressed_bytes: 0 };
        self.import_queue.clear();
        self.status = "Archive locked".to_string();
        proof {
            assert(self@ =~= updated(old(self)@, VaultMsg::LockVault));
        }
    }

    /// Asks for the listing of the folder that is shown.
    fn load_directory(&mut self) -> (effects: Vec<VaultEffect<P>>)
        ensures
            final(self)@ == updated(old(self)@, VaultMsg::LoadCurrentDirectory),
            effect_views(effects@) == requested(old(self)@, VaultMsg::LoadCurrentDirectory),
    {
        if self.db.is_some() {
            let search = if is_empty_text(trim_text(self.search_query.as_str()).as_str()) {
                None
            } else {
                Some(self.search_query.as_str().to_string())
            };
            self.is_loading = true;
            just(
                VaultEffect::List {
                    folder_id: self.current_folder_id,
                    search,
                    sort_column: self.sort_column,
                    sort_direction: self.sort_direction,
                    limit: PAGE_SIZE,
                },
            )
        } else {
            nothing()
        }
    }

    /// Sorts by a column, or turns the order round where the list is sorted by it already.
    fn toggle_sort(&mut self, column: SortColumn)
        ensures
            final(self)@ == updated(old(self)@, VaultMsg::ToggleSort(column)),
    {
        if self.sort_column == column {
            self.sort_direction = match self.sort_direction {
                SortDirection::Asc => SortDirection::Desc,
                SortDirection::Desc => SortDirection::Asc,
            };
        } else {
            self.sort_column = column;
            self.sort_direction = SortDirection::Asc;
        }
    }

    /// Acts on a message, and says what is to be done about it outside.
    pub fn update(&mut self, msg: VaultMsg<D, P, T>) -> (effects: Vec<VaultEffect<P>>)
        ensures
            final(self)@ == updated(old(self)@, msg),
            effect_views(effects@) == requested(old(self)@, msg),
            effects@.len() == requested(old(self)@, msg).len(),
            forall|i: int|
                0 <= i < effects@.len() ==> (#[trigger] effects@[i])@ == requested(
                    old(self)@,
                    msg,
                )[i],
    {
        let effects = self.act(msg);
        proof {
            assert forall|i: int| 0 <= i < effects@.len() implies (#[trigger] effects@[i])@
                == requested(old(self)@, msg)[i] by {
                assert(effect_views(effects@)[i] == effects@[i]@);
            }
        }
        effects
    }

    /// Acts on a message.
    fn act(&mut self, msg: VaultMsg<D, P, T>) -> (effects: Vec<VaultEffect<P>>)
        ensures
            final(self)@ == updated(old(self)@, msg),
            effect_views(effects@) == requested(old(self)@, msg),
    {
        match msg {
            VaultMsg::PromptCreateVault => nothing(),
            VaultMsg::PromptOpenVault => nothing(),
            VaultMsg::PromptAddFile => nothing(),
            VaultMsg::PromptChangePassword => nothing(),
            VaultMsg::ExecuteUnlock(path, password, is_new) => {
                self.is_loading = true;
                self.progress = Progress { done: 0, total: 1 };
                self.status = "Verifying SQLCipher & Zstd headers...".to_string();
                just(VaultEffect::Unlock { path, password, is_new })
            },
            VaultMsg::VaultUnlocked(db, path, stats) => {
                self.db = Some(db);
                self.active_vault_path = Some(path);
                self.current_folder_id = None;
                self.folder_path_stack = root_stack();
                self.stats = stats;
                self.is_loading = false;
                self.status = "Archive opened".to_string();
                just(VaultEffect::Reload)
            },
            VaultMsg::LoadCurrentDirectory => self.load_directory(),
            VaultMsg::DirectoryInitialized(folders, files) => {
                self.show_directory(folders, files);
                nothing()
            },
            VaultMsg::SetSearchQuery(query) => {
                self.search_query = query;
                just(VaultEffect::Reload)
            },
            VaultMsg::ToggleSort(column) => {
                self.toggle_sort(column);
                just(VaultEffect::Reload)
            },
            VaultMsg::ExecuteRekey(password) => {
                if self.db.is_some() {
                    self.is_loading = true;
                    just(VaultEffect::Rekey(password))
                } else {
                    nothing()
                }
            },
            VaultMsg::TriggerCompact => {
                if self.db.is_some() {
                    self.is_loading = true;
                    self.status = "Compacting database pages (VACUUM)...".to_string();
                    just(VaultEffect::Compact)
                } else {
                    nothing()
                }
            },
            VaultMsg::TriggerIntegrityTest => {
                if self.db.is_some() {
                    self.is_loading = true;
                    self.status = "Checking BLAKE3 chunk hashes...".to_string();
                    just(VaultEffect::CheckIntegrity)
                } else {
                    nothing()
                }
            },
            VaultMsg::IntegrityVerified(results) => {
                self.is_loading = false;
                self.progress = Progress { done: 0, total: 1 };
                let (status, title, message) = report_checks(results.as_slice());
                self.status = status;
                just(VaultEffect::Alert { title, message })
            },
            VaultMsg::ShowQuickLook(index) => self.quick_look(index),
            VaultMsg::PreviewLoaded(name, meta, data, is_image, texture) => {
                self.show_preview(name, meta, data, is_image, texture);
                nothing()
            },
            VaultMsg::CloseQuickLook => {
                self.show_preview_pane = false;
                self.preview_texture = None;
                nothing()
            },
            VaultMsg::PromptExportVault => {
                if self.active_vault_path.is_some() {
                    just(VaultEffect::AskBackupTarget)
                } else {
                    nothing()
                }
            },
            VaultMsg::LockVault => {
                self.lock();
                nothing()
            },
            VaultMsg::PromptCreateFolder => {
                if self.db.is_some() {
                    just(
                        VaultEffect::CreateFolder {
                            name: "NewFolder".to_string(),
                            parent_id: self.current_folder_id,
                        },
                    )
                } else {
                    nothing()
                }
            },
            VaultMsg::ImportFilesList(paths) => {
                if self.db.is_some() {
                    just(VaultEffect::ExpandPaths(paths, self.current_folder_id))
                } else {
                    just(
                        VaultEffect::Fail(
                            "Unlock or create an archive before dropping items.".to_string(),
                        ),
                    )
                }
            },
            VaultMsg::FilesFound(files, folder_id) => {
                self.enqueue(files, folder_id);
                just(VaultEffect::ProcessQueue)
            },
            VaultMsg::ProcessNextImportQueue => self.process_queue(),
            VaultMsg::StatsRefreshed(stats) => {
                self.stats = stats;
                nothing()
            },
            VaultMsg::PromptDuplicateEncountered { path, folder_id, existing_file_name } => just(
                VaultEffect::AskDuplicate(path, folder_id, existing_file_name),
            ),
            VaultMsg::ResolveDuplicate { path, file_name, folder_id, keep } => {
                if keep {
                    just(VaultEffect::Commit(path, folder_id))
                } else {
                    let mut status = "Skipped duplicate: ".to_string();
                    status.append(file_name.as_str());
                    self.status = status;
                    just(VaultEffect::ProcessQueue)
                }
            },
            VaultMsg::CommitSingleFileImport(path, folder_id) => {
                if self.db.is_some() {
                    just(VaultEffect::Import(path, folder_id))
                } else {
                    nothing()
                }
            },
            VaultMsg::SelectEntry(index) => {
                self.selected_index = match index {
                    Some(i) => if i < self.entries.len() {
                        Some(i)
                    } else {
                        None
                    },
                    None => None,
                };
                nothing()
            },
            VaultMsg::ActivateEntry(index) => self.activate(index),
            VaultMsg::NavigateUp => self.navigate_up(),
            VaultMsg::PromptRenameSelected(target) => self.rename_entry(target),
            VaultMsg::DeleteSelectedItem(target) => self.delete_entry(target),
            VaultMsg::PromptExtractFile(target) => self.extract_entry(target),
            VaultMsg::UpdateProgress(progress, text) => {
                self.is_loading = true;
                self.progress = progress;
                self.status = text;
                nothing()
            },
            VaultMsg::SetStatus(text) => {
                self.status = text;
                self.is_loading = false;
                self.progress = Progress { done: 0, total: 1 };
                nothing()
            },
            VaultMsg::SetError(text) => {
                let mut status = "Error: ".to_string();
                status.append(text.as_str());
                self.status = status;
                self.is_loading = false;
                self.progress = Progress { done: 0, total: 1 };
                just(VaultEffect::Alert { title: "Warning / Error".to_string(), message: text })
            },
        }
    }
}

/// The way to a folder, for the reader.
pub open spec fn location_text(path: Seq<PathStep>) -> Seq<char>
    decreases path.len(),
{
    if path.len() == 0 {
        Seq::empty()
    } else if path.len() == 1 {
        path[0].name
    } else {
        location_text(path.drop_last()) + "/"@ + path.last().name
    }
}

/// Whether the last folder on the way is the one that is shown; where there is no way, none is.
pub open spec fn located<D, P, T>(v: VaultView<D, P, T>) -> bool {
    if v.folder_path.len() > 0 {
        v.folder_path.last().folder_id == v.current_folder_id
    } else {
        v.current_folder_id is None
    }
}

/// Whether the selected row is one of the list.
pub open spec fn selection_in_list<D, P, T>(v: VaultView<D, P, T>) -> bool {
    v.selected_index matches Some(i) ==> i < v.entries.len()
}

/// Whether a request is for work on the database.
pub open spec fn needs_database<P>(effect: EffectView<P>) -> bool {
    match effect {
        EffectView::List { .. } => true,
        EffectView::Rekey(_) => true,
        EffectView::Compact => true,
        EffectView::CheckIntegrity => true,
        EffectView::LoadPreview { .. } => true,
        EffectView::CreateFolder { .. } => true,
        EffectView::ExpandPaths(_, _) => true,
        EffectView::RefreshStats => true,
        EffectView::HashFile(_, _) => true,
        EffectView::Import(_, _) => true,
        EffectView::Delete { .. } => true,
        _ => false,
    }
}

/// The window at the start shows the folder it says it shows, with nothing selected, and every
/// message keeps both.
pub proof fn law_location_and_selection_kept<D, P, T>(
    v: VaultView<D, P, T>,
    msg: VaultMsg<D, P, T>,
)
    ensures
        located(initial::<D, P, T>()),
        selection_in_list(initial::<D, P, T>()),
        located(v) ==> located(updated(v, msg)),
        selection_in_list(v) ==> selection_in_list(updated(v, msg)),
{
}

/// To go up from a folder that was just opened leads back to where the reader was.
pub proof fn law_navigate_up_undoes_open<D, P, T>(v: VaultView<D, P, T>, index: usize)
    requires
        located(v),
        v.folder_path.len() > 0,
        chosen(v, Some(index)) matches Some(ArchiveEntry::Folder(_)),
    ensures
        updated(
            updated(v, VaultMsg::<D, P, T>::ActivateEntry(index)),
            VaultMsg::<D, P, T>::NavigateUp,
        ) == v,
{
    let opened = updated(v, VaultMsg::<D, P, T>::ActivateEntry(index));
    let back = updated(opened, VaultMsg::<D, P, T>::NavigateUp);
    assert(back.folder_path =~= v.folder_path);
    assert(back =~= v);
}

/// To sort twice by the column that the list is sorted by changes nothing.
pub proof fn law_toggle_twice<D, P, T>(v: VaultView<D, P, T>)
    ensures
        updated(
            updated(v, VaultMsg::<D, P, T>::ToggleSort(v.sort_column)),
            VaultMsg::<D, P, T>::ToggleSort(v.sort_column),
        ) == v,
{
}

/// A window without a database asks for no work on one.
pub proof fn law_locked_asks_nothing<D, P, T>(v: VaultView<D, P, T>, msg: VaultMsg<D, P, T>)
    requires
        v.db is None,
    ensures
        forall|i: int|
            0 <= i < requested(v, msg).len() ==> !needs_database(#[trigger] requested(v, msg)[i]),
{
}

/// A locked window has no database, no path, no folder, no entries, no totals, no files waiting and
/// no preview on show.
pub proof fn law_lock_forgets<D, P, T>(v: VaultView<D, P, T>)
    ensures
        ({
            let locked = updated(v, VaultMsg::<D, P, T>::LockVault);
            &&& locked.db is None
            &&& locked.active_vault_path is None
            &&& locked.current_folder_id is None
            &&& locked.folder_path.len() == 0
            &&& locked.entries.len() == 0
            &&& locked.selected_index is None
            &&& locked.import_queue.len() == 0
            &&& locked.stats == initial::<D, P, T>().stats
            &&& !locked.show_preview_pane
        }),
{
}

/// The window after a number of turns of the import queue.
pub open spec fn after_turns<D, P, T>(v: VaultView<D, P, T>, turns: nat) -> VaultView<D, P, T>
    decreases turns,
{
    if turns == 0 {
        v
    } else {
        updated(
            after_turns(v, (turns - 1) as nat),
            VaultMsg::<D, P, T>::ProcessNextImportQueue,
        )
    }
}

/// Files that were found are imported in the order in which they were found, behind those that
/// waited before.
pub proof fn law_queue_in_order<D, P, T>(
    v: VaultView<D, P, T>,
    files: Vec<P>,
    folder_id: Option<Uuid>,
    turn: nat,
)
    requires
        v.db is Some,
        turn < files@.len(),
    ensures
        requested(
            after_turns(
                updated(v, VaultMsg::<D, P, T>::FilesFound(files, folder_id)),
                v.import_queue.len() + turn,
            ),
            VaultMsg::<D, P, T>::ProcessNextImportQueue,
        ) == seq![EffectView::HashFile(files@[turn as int], folder_id)],
{
    let filled = updated(v, VaultMsg::<D, P, T>::FilesFound(files, folder_id));
    lemma_turns(filled, v.import_queue.len() + turn);
}

/// Every turn takes one file from the front of the queue.
proof fn lemma_turns<D, P, T>(v: VaultView<D, P, T>, turns: nat)
    requires
        turns <= v.import_queue.len(),
    ensures
        after_turns(v, turns).db == v.db,
        after_turns(v, turns).import_queue == v.import_queue.subrange(
            turns as int,
            v.import_queue.len() as int,
        ),
    decreases turns,
{
    if turns == 0 {
        assert(v.import_queue.subrange(0, v.import_queue.len() as int) =~= v.import_queue);
    } else {
        lemma_turns(v, (turns - 1) as nat);
        assert(v.import_queue.subrange(turns - 1, v.import_queue.len() as int).drop_first()
            =~= v.import_queue.subrange(turns as int, v.import_queue.len() as int));
    }
}

/// What the view of a request says is what the request is.
pub proof fn law_request_is_as_viewed<P>(effect: VaultEffect<P>)
    ensures
        match effect@ {
            EffectView::Reload => effect is Reload,
            EffectView::ProcessQueue => effect is ProcessQueue,
            EffectView::QuickLook(i) => effect matches VaultEffect::QuickLook(j) && i == j,
            EffectView::Commit(p, f) => effect == VaultEffect::Commit(p, f),
            EffectView::Duplicate(p, f, text) => effect matches VaultEffect::Duplicate(q, g, name) && p
                == q && f == g && text == name@,
            EffectView::Status(text) => effect matches VaultEffect::Status(t) && text == t@,
            EffectView::Fail(text) => effect matches VaultEffect::Fail(t) && text == t@,
            EffectView::Unlock { path, password, is_new } => effect matches VaultEffect::Unlock {
                path: p,
                password: w,
                is_new: n,
            } && path == p && password == w@ && is_new == n,
            EffectView::List { folder_id, search, sort_column, sort_direction, limit } =>
                effect matches VaultEffect::List {
                folder_id: f,
                search: q,
                sort_column: c,
                sort_direction: d,
                limit: l,
            } && folder_id == f && sort_column == c && sort_direction == d && limit == l && match q {
                Some(text) => search == Some(text@),
                None => search is None,
            },
            EffectView::Rekey(password) => effect matches VaultEffect::Rekey(w) && password == w@,
            EffectView::Compact => effect is Compact,
            EffectView::CheckIntegrity => effect is CheckIntegrity,
            EffectView::LoadPreview {
                id,
                name,
                size,
                compressed_size,
                checksum,
                created_at,
                is_image,
                max_bytes,
            } => effect matches VaultEffect::LoadPreview {
                id: i,
                name: n,
                size: s,
                compressed_size: c,
                checksum: h,
                created_at: t,
                is_image: g,
                max_bytes: m,
            } && id == i && name == n@ && size == s && compressed_size == c && checksum == h@
                && created_at == t && is_image == g && max_bytes == m,
            EffectView::AskBackupTarget => effect is AskBackupTarget,
            EffectView::CreateFolder { name, parent_id } => effect matches VaultEffect::CreateFolder {
                name: n,
                parent_id: p,
            } && name == n@ && parent_id == p,
            EffectView::ExpandPaths(paths, f) => effect matches VaultEffect::ExpandPaths(ps, g)
                && paths == ps@ && f == g,
            EffectView::RefreshStats => effect is RefreshStats,
            EffectView::HashFile(p, f) => effect == VaultEffect::HashFile(p, f),
            EffectView::AskDuplicate(p, f, text) => effect matches VaultEffect::AskDuplicate(q, g, n)
                && p == q && f == g && text == n@,
            EffectView::Import(p, f) => effect == VaultEffect::Import(p, f),
            EffectView::AskRename { id, name, is_folder } => effect matches VaultEffect::AskRename {
                id: i,
                name: n,
                is_folder: b,
            } && id == i && name == n@ && is_folder == b,
            EffectView::Delete { id, is_folder } => effect == (VaultEffect::<P>::Delete {
                id,
                is_folder,
            }),
            EffectView::AskExtract { id, name, total_size } => effect matches VaultEffect::AskExtract {
                id: i,
                name: n,
                total_size: s,
            } && id == i && name == n@ && total_size == s,
            EffectView::Alert { title, message } => effect matches VaultEffect::Alert {
                title: t,
                message: m,
            } && title == t@ && message == m@,
        },
{
}

/// What the view of a window says is what the window holds, field by field, with every row and every
/// step of the way in its place.
pub proof fn law_window_is_as_viewed<D, P, T>(model: VaultModel<D, P, T>)
    ensures
        model@.db == model.db,
        model@.active_vault_path == model.active_vault_path,
        model@.current_folder_id == model.current_folder_id,
        model@.folder_path.len() == model.folder_path_stack@.len(),
        forall|i: int|
            0 <= i < model.folder_path_stack@.len() ==> {
                &&& (#[trigger] model@.folder_path[i]).folder_id == model.folder_path_stack@[i].0
                &&& model@.folder_path[i].name == model.folder_path_stack@[i].1@
            },
        model@.entries.len() == model.entries@.len(),
        forall|i: int|
            0 <= i < model.entries@.len() ==> {
                let row = model.entries@[i];
                &&& (#[trigger] model@.entries[i]).entry == row.entry
                &&& model@.entries[i].index == row.index
                &&& model@.entries[i].shown.icon == row.display_icon@
                &&& model@.entries[i].shown.name == row.display_name@
                &&& model@.entries[i].shown.kind == row.display_type@
                &&& model@.entries[i].shown.size == row.display_size@
                &&& model@.entries[i].shown.encrypted == row.display_encrypted@
                &&& model@.entries[i].shown.modified == row.display_modified@
            },
        model@.selected_index == model.selected_index,
        model@.stats == model.stats,
        model@.is_loading == model.is_loading,
        model@.progress == model.progress,
        model@.status == model.status@,
        model@.search_query == model.search_query@,
        model@.sort_column == model.sort_column,
        model@.sort_direction == model.sort_direction,
        model@.preview_name == model.preview_name@,
        model@.preview_meta == model.preview_meta@,
        model@.preview_text == model.preview_text@,
        model@.preview_has_image == model.preview_has_image,
        model@.preview_texture == model.preview_texture,
        model@.show_preview_pane == model.show_preview_pane,
        model@.import_queue == model.import_queue@,
{
}

/// A message changes only what it is about: the database and its path change when an archive is opened
/// or locked, the way with these and with a walk through the folders, the list with a listing, the
/// selection with a listing or a choice, the totals with new ones, the search and the order with
/// theirs, the preview with its own messages, and the queue with files found and taken.
pub proof fn law_message_leaves_the_rest<D, P, T>(v: VaultView<D, P, T>, msg: VaultMsg<D, P, T>)
    ensures
        ({
            let w = updated(v, msg);
            &&& !(msg is VaultUnlocked || msg is LockVault) ==> w.db == v.db && w.active_vault_path
                == v.active_vault_path
            &&& !(msg is VaultUnlocked || msg is LockVault || msg is ActivateEntry
                || msg is NavigateUp) ==> w.current_folder_id == v.current_folder_id
                && w.folder_path == v.folder_path
            &&& !(msg is DirectoryInitialized || msg is LockVault) ==> w.entries == v.entries
            &&& !(msg is DirectoryInitialized || msg is LockVault || msg is SelectEntry)
                ==> w.selected_index == v.selected_index
            &&& !(msg is VaultUnlocked || msg is LockVault || msg is StatsRefreshed) ==> w.stats
                == v.stats
            &&& !(msg is SetSearchQuery) ==> w.search_query == v.search_query
            &&& !(msg is ToggleSort) ==> w.sort_column == v.sort_column && w.sort_direction
                == v.sort_direction
            &&& !(msg is PreviewLoaded) ==> {
                &&& w.preview_name == v.preview_name
                &&& w.preview_meta == v.preview_meta
                &&& w.preview_text == v.preview_text
                &&& w.preview_has_image == v.preview_has_image
            }
            &&& !(msg is PreviewLoaded || msg is CloseQuickLook) ==> w.preview_texture
                == v.preview_texture
            &&& !(msg is PreviewLoaded || msg is CloseQuickLook || msg is LockVault)
                ==> w.show_preview_pane == v.show_preview_pane
            &&& !(msg is FilesFound || msg is ProcessNextImportQueue || msg is LockVault)
                ==> w.import_queue == v.import_queue
            &&& !(msg is ExecuteUnlock || msg is ProcessNextImportQueue || msg is IntegrityVerified
                || msg is UpdateProgress || msg is SetStatus || msg is SetError) ==> w.progress
                == v.progress
            &&& !(msg is ExecuteUnlock || msg is VaultUnlocked || msg is DirectoryInitialized
                || msg is LockVault || msg is ProcessNextImportQueue || msg is ResolveDuplicate
                || msg is TriggerCompact || msg is TriggerIntegrityTest || msg is IntegrityVerified
                || msg is UpdateProgress || msg is SetStatus || msg is SetError) ==> w.status
                == v.status
            &&& !(msg is ExecuteUnlock || msg is VaultUnlocked || msg is LoadCurrentDirectory
                || msg is DirectoryInitialized || msg is ProcessNextImportQueue
                || msg is DeleteSelectedItem || msg is ExecuteRekey || msg is TriggerCompact
                || msg is TriggerIntegrityTest || msg is IntegrityVerified || msg is ShowQuickLook
                || msg is PreviewLoaded || msg is UpdateProgress || msg is SetStatus
                || msg is SetError) ==> w.is_loading == v.is_loading
        }),
{
}

/// The window is busy from the moment it asks for work in the background until it hears of the end of
/// it: of the archive opened, the listing, the preview, the verdicts, the queue run empty, a status or
/// an error.
pub proof fn law_busy_while_working<D, P, T>(v: VaultView<D, P, T>, msg: VaultMsg<D, P, T>)
    ensures
        ({
            let w = updated(v, msg);
            &&& (msg is ExecuteUnlock || msg is UpdateProgress) ==> w.is_loading
            &&& v.db is Some && (msg is LoadCurrentDirectory || msg is ExecuteRekey
                || msg is TriggerCompact || msg is TriggerIntegrityTest) ==> w.is_loading
            &&& v.db is None && (msg is LoadCurrentDirectory || msg is ExecuteRekey
                || msg is TriggerCompact || msg is TriggerIntegrityTest
                || msg is DeleteSelectedItem) ==> w == v
            &&& v.import_queue.len() > 0 && msg is ProcessNextImportQueue ==> {
                &&& w.is_loading == (v.is_loading || v.db is Some)
                &&& w.progress == v.progress
            }
            &&& v.db is Some ==> (msg matches VaultMsg::DeleteSelectedItem(target) ==> {
                let index = if target is Some { target } else { v.selected_index };
                w.is_loading == (v.is_loading || (index matches Some(i) && i < v.entries.len()))
            })
            &&& (msg is VaultUnlocked || msg is DirectoryInitialized || msg is PreviewLoaded
                || msg is IntegrityVerified || msg is SetStatus || msg is SetError)
                ==> !w.is_loading
            &&& msg is ProcessNextImportQueue && v.import_queue.len() == 0 ==> !w.is_loading
            &&& (msg is ExecuteUnlock || msg is IntegrityVerified || msg is SetStatus
                || msg is SetError || (msg is ProcessNextImportQueue && v.import_queue.len() == 0))
                ==> w.progress.done == 0 && w.progress.total == 1
        }),
{
}

/// The indices of the files that failed their check.
pub open spec fn failed_places(results: Seq<(String, bool)>) -> Set<int> {
    Set::new(|i: int| 0 <= i < results.len() && !results[i].1)
}

/// As many files failed as there are places of failed ones.
proof fn lemma_failures_are_counted(results: Seq<(String, bool)>)
    ensures
        failed_places(results).finite(),
        failures(results) == failed_places(results).len(),
    decreases results.len(),
{
    let places = failed_places(results);
    if results.len() == 0 {
        assert(places =~= Set::empty());
    } else {
        let front = results.drop_last();
        let last = results.len() - 1;
        lemma_failures_are_counted(front);
        assert(results.last() == results[last]);
        assert(!failed_places(front).contains(last));
        if results[last].1 {
            assert(places =~= failed_places(front));
        } else {
            assert(places =~= failed_places(front).insert(last));
        }
    }
}

/// A check of the archive is reported as passed if and only if every file passed; otherwise as failed,
/// with the number of the files that did not, in the status and in the message alike.
pub proof fn law_check_passes_iff_every_file_did<D, P, T>(
    v: VaultView<D, P, T>,
    results: Vec<(String, bool)>,
)
    ensures
        ({
            let msg = VaultMsg::<D, P, T>::IntegrityVerified(results);
            let all = forall|i: int| 0 <= i < results@.len() ==> (#[trigger] results@[i]).1;
            let failed = Set::new(|i: int| 0 <= i < results@.len() && !results@[i].1);
            &&& requested(v, msg).len() == 1
            &&& requested(v, msg)[0] matches EffectView::Alert { title, message } && {
                &&& all <==> title == "Integrity Check: PASSED"@
                &&& !all <==> title == "Integrity Warning"@
                &&& all ==> {
                    &&& updated(v, msg).status == "Integrity check passed! Verified "@
                        + crate::text::decimal(results@.len()) + " files."@
                    &&& message == "All "@ + crate::text::decimal(results@.len())
                        + " files passed BLAKE3 checksum and Zstandard decompression verification without any errors."@
                }
                &&& !all ==> {
                    &&& failed.len() > 0
                    &&& message == "Integrity Check FAILED! "@ + crate::text::decimal(failed.len())
                        + " corrupted file(s) found."@
                    &&& updated(v, msg).status == message
                }
            }
        }),
{
    lemma_failures_are_counted(results@);
    let failed = Set::new(|i: int| 0 <= i < results@.len() && !results@[i].1);
    assert(failed =~= failed_places(results@));
    if failures(results@) == 0 {
        assert forall|i: int| 0 <= i < results@.len() implies (#[trigger] results@[i]).1 by {
            assert(!failed.contains(i));
        }
    } else {
        let i = failed.choose();
        assert(failed.contains(i));
        assert(!results@[i].1);
    }
    reveal_strlit("Integrity Check: PASSED");
    reveal_strlit("Integrity Warning");
    assert("Integrity Check: PASSED"@.len() != "Integrity Warning"@.len());
}

/// A deletion that the window asks for is one of the entry at the row that the command names, or else
/// at the selected row, of that entry's own kind. What it leads to takes the entry out of the archive:
/// the chosen file is no longer in the table of files, nor a chosen folder in that of folders.
pub proof fn law_delete_is_of_the_chosen_entry<D, P, T>(
    v: VaultView<D, P, T>,
    target: Option<usize>,
    t: Tables,
    sizes: (usize, usize),
)
    requires
        crate::tables::linked(t),
        crate::tables::all_referenced(t),
    ensures
        ({
            let index = if target is Some { target } else { v.selected_index };
            let asked = requested(v, VaultMsg::<D, P, T>::DeleteSelectedItem(target));
            match index {
                Some(i) if i < v.entries.len() && v.db is Some => {
                    let entry = v.entries[i as int].entry;
                    &&& asked.len() == 1
                    &&& asked[0] matches EffectView::Delete { id, is_folder } && {
                        &&& is_folder <==> entry is Folder
                        &&& match entry {
                            ArchiveEntry::Folder(f) => id == f.id,
                            ArchiveEntry::File(f) => id == f.id,
                        }
                        &&& crate::tables::run(
                            t,
                            if is_folder {
                                crate::db::folder_deletion(id)
                            } else {
                                crate::db::file_deletion(id, sizes)
                            },
                        ) matches Some(u) ==> match entry {
                            ArchiveEntry::Folder(f) => !u.folders.contains_key(f.id),
                            ArchiveEntry::File(f) => !u.files.contains_key(f.id),
                        }
                    }
                },
                _ => asked.len() == 0,
            }
        }),
{
    let index = if target is Some { target } else { v.selected_index };
    if let Some(i) = index {
        if i < v.entries.len() && v.db is Some {
            match v.entries[i as int].entry {
                ArchiveEntry::Folder(f) => {
                    crate::laws::lemma_folder_deleted(t, f.id);
                    if t.folders.contains_key(f.id) {
                        assert(crate::tables::descent(t, seq![f.id], f.id, f.id));
                    }
                },
                ArchiveEntry::File(f) => {
                    crate::laws::lemma_file_deleted(t, f.id, sizes);
                },
            }
        }
    }
}

/// A rename is asked for the chosen entry, with its own name to begin with and of its own kind; an
/// extraction only for a file, under its name and with its size.
pub proof fn law_rename_and_extract_are_of_the_chosen_entry<D, P, T>(
    v: VaultView<D, P, T>,
    target: Option<usize>,
)
    ensures
        ({
            let index = if target is Some { target } else { v.selected_index };
            let renames = requested(v, VaultMsg::<D, P, T>::PromptRenameSelected(target));
            let extracts = requested(v, VaultMsg::<D, P, T>::PromptExtractFile(target));
            match index {
                Some(i) if i < v.entries.len() => match v.entries[i as int].entry {
                    ArchiveEntry::Folder(f) => {
                        &&& renames.len() == 1
                        &&& renames[0] matches EffectView::AskRename { id, name, is_folder } && id
                            == f.id && name == f.name@ && is_folder
                        &&& extracts.len() == 0
                    },
                    ArchiveEntry::File(f) => {
                        &&& renames.len() == 1
                        &&& renames[0] matches EffectView::AskRename { id, name, is_folder } && id
                            == f.id && name == f.name@ && !is_folder
                        &&& extracts.len() == 1
                        &&& extracts[0] matches EffectView::AskExtract { id, name, total_size } && id
                            == f.id && name == f.name@ && total_size == f.size
                    },
                },
                _ => renames.len() == 0 && extracts.len() == 0,
            }
        }),
{
}

/// To open an entry leads into the folder, which becomes the one that is shown and the last on the way,
/// and asks for its listing; for a file it asks for its preview. The preview is that of the file at the
/// row, with all that its summary needs, of its first 262144 bytes, and as an image just where its name
/// ends like one.
pub proof fn law_entries_open<D, P, T>(v: VaultView<D, P, T>, index: usize)
    ensures
        ({
            let activate = VaultMsg::<D, P, T>::ActivateEntry(index);
            let look = VaultMsg::<D, P, T>::ShowQuickLook(index);
            if index < v.entries.len() {
                match v.entries[index as int].entry {
                    ArchiveEntry::Folder(f) => {
                        let w = updated(v, activate);
                        &&& w.current_folder_id == Some(f.id)
                        &&& w.folder_path.len() == v.folder_path.len() + 1
                        &&& w.folder_path.drop_last() == v.folder_path
                        &&& w.folder_path.last().folder_id == Some(f.id)
                        &&& w.folder_path.last().name == f.name@
                        &&& requested(v, activate) == seq![EffectView::<P>::Reload]
                        &&& requested(v, look).len() == 0
                        &&& updated(v, look) == v
                    },
                    ArchiveEntry::File(f) => {
                        &&& updated(v, activate) == v
                        &&& requested(v, activate) == seq![EffectView::<P>::QuickLook(index as int)]
                        &&& updated(v, look).is_loading
                        &&& v.db is Some ==> {
                            &&& requested(v, look).len() == 1
                            &&& requested(v, look)[0] matches EffectView::LoadPreview {
                                id,
                                name,
                                size,
                                compressed_size,
                                checksum,
                                created_at,
                                is_image,
                                max_bytes,
                            } && id == f.id && name == f.name@ && size == f.size && compressed_size
                                == f.compressed_size && checksum == f.checksum@ && created_at
                                == f.created_at && max_bytes == 262144 && is_image
                                == crate::display::shown_as_image(
                                crate::display::extension(f.name@),
                            )
                        }
                        &&& v.db is None ==> requested(v, look).len() == 0
                    },
                }
            } else {
                &&& updated(v, activate) == v
                &&& updated(v, look) == v
                &&& requested(v, activate).len() == 0
                &&& requested(v, look).len() == 0
            }
        }),
{
    let w = updated(v, VaultMsg::<D, P, T>::ActivateEntry(index));
    if w.folder_path.len() > v.folder_path.len() {
        assert(w.folder_path.drop_last() =~= v.folder_path);
    }
}

/// To go up leads to the folder before the last on the way, unless that is the top, where nothing
/// happens.
pub proof fn law_up_goes_one_folder_up<D, P, T>(v: VaultView<D, P, T>)
    ensures
        ({
            let up = VaultMsg::<D, P, T>::NavigateUp;
            let w = updated(v, up);
            if v.folder_path.len() > 1 {
                &&& w.folder_path.len() == v.folder_path.len() - 1
                &&& forall|i: int|
                    0 <= i < w.folder_path.len() ==> #[trigger] w.folder_path[i] == v.folder_path[i]
                &&& w.current_folder_id == w.folder_path.last().folder_id
                &&& requested(v, up) == seq![EffectView::<P>::Reload]
            } else {
                w == v && requested(v, up).len() == 0
            }
        }),
{
}

/// A listing is asked for with what the window shows: the folder it is in, the search in its field
/// unless that is blank, the order of its headers, and at most 500 files.
pub proof fn law_listing_is_of_what_is_shown<D, P, T>(v: VaultView<D, P, T>)
    requires
        v.db is Some,
    ensures
        ({
            let asked = requested(v, VaultMsg::<D, P, T>::LoadCurrentDirectory);
            &&& asked.len() == 1
            &&& asked[0] matches EffectView::List {
                folder_id,
                search,
                sort_column,
                sort_direction,
                limit,
            } && {
                &&& folder_id == v.current_folder_id
                &&& sort_column == v.sort_column
                &&& sort_direction == v.sort_direction
                &&& limit == 500
                &&& match search {
                    Some(query) => query == v.search_query && exists|i: int|
                        0 <= i < query.len() && !crate::text::white_space(#[trigger] query[i]),
                    None => forall|i: int|
                        0 <= i < v.search_query.len() ==> crate::text::white_space(
                            #[trigger] v.search_query[i],
                        ),
                }
            }
        }),
{
    crate::text::law_trimmed(v.search_query);
}

/// What a listing shows are its folders and then its files, each in its place with its own texts and
/// its number, and nothing is selected.
pub proof fn law_listing_is_shown<D, P, T>(
    v: VaultView<D, P, T>,
    folders: Vec<FolderMetadata>,
    files: Vec<FileMetadata>,
)
    ensures
        ({
            let msg = VaultMsg::<D, P, T>::DirectoryInitialized(folders, files);
            let w = updated(v, msg);
            &&& w.entries.len() == folders@.len() + files@.len()
            &&& forall|i: int|
                0 <= i < folders@.len() ==> {
                    &&& (#[trigger] w.entries[i]).entry == ArchiveEntry::Folder(folders@[i])
                    &&& w.entries[i].index == i
                    &&& w.entries[i].shown == crate::display::row_of(w.entries[i].entry)
                }
            &&& forall|i: int|
                0 <= i < files@.len() ==> {
                    &&& (#[trigger] w.entries[folders@.len() + i]).entry == ArchiveEntry::File(
                        files@[i],
                    )
                    &&& w.entries[folders@.len() + i].index == folders@.len() + i
                    &&& w.entries[folders@.len() + i].shown == crate::display::row_of(
                        w.entries[folders@.len() + i].entry,
                    )
                }
            &&& w.selected_index is None
            &&& w.status == "Ready"@
            &&& requested(v, msg).len() == 0
        }),
{
}

/// A choice selects the row where there is one, and nothing else; a search and an order are taken over
/// and listed anew: another column from its least on, the same one the other way round.
pub proof fn law_choice_search_and_order<D, P, T>(
    v: VaultView<D, P, T>,
    index: Option<usize>,
    query: String,
    column: SortColumn,
)
    ensures
        ({
            let select = VaultMsg::<D, P, T>::SelectEntry(index);
            let search = VaultMsg::<D, P, T>::SetSearchQuery(query);
            let sort = VaultMsg::<D, P, T>::ToggleSort(column);
            &&& updated(v, select).selected_index == (match index {
                Some(i) if i < v.entries.len() => Some(i),
                _ => None::<usize>,
            })
            &&& requested(v, select).len() == 0
            &&& updated(v, search).search_query == query@
            &&& requested(v, search) == seq![EffectView::<P>::Reload]
            &&& updated(v, sort).sort_column == column
            &&& v.sort_column != column ==> updated(v, sort).sort_direction is Asc
            &&& v.sort_column == column ==> updated(v, sort).sort_direction != v.sort_direction
            &&& requested(v, sort) == seq![EffectView::<P>::Reload]
        }),
{
}

/// An archive is asked for under the path and the password given; once it is open, its database, its
/// path and its totals are kept, the top is shown and listed. A new password goes on as it is.
pub proof fn law_archive_opens<D, P, T>(
    v: VaultView<D, P, T>,
    path: P,
    password: String,
    is_new: bool,
    db: D,
    stats: VaultStats,
)
    ensures
        ({
            let unlock = VaultMsg::<D, P, T>::ExecuteUnlock(path, password, is_new);
            let unlocked = VaultMsg::<D, P, T>::VaultUnlocked(db, path, stats);
            let rekey = VaultMsg::<D, P, T>::ExecuteRekey(password);
            let w = updated(v, unlocked);
            &&& requested(v, unlock).len() == 1
            &&& requested(v, unlock)[0] matches EffectView::Unlock { path: p, password: s, is_new: n }
                && p == path && s == password@ && n == is_new
            &&& updated(v, unlock).status == "Verifying SQLCipher & Zstd headers..."@
            &&& w.db == Some(db)
            &&& w.active_vault_path == Some(path)
            &&& w.stats == stats
            &&& w.current_folder_id is None
            &&& w.folder_path.len() == 1
            &&& w.folder_path[0].folder_id is None
            &&& w.folder_path[0].name == "/root"@
            &&& w.status == "Archive opened"@
            &&& requested(v, unlocked) == seq![EffectView::<P>::Reload]
            &&& v.db is Some ==> requested(v, rekey) == seq![EffectView::<P>::Rekey(password@)]
            &&& v.db is None ==> requested(v, rekey).len() == 0
        }),
{
}

/// An import goes the whole way: paths are searched for files with the folder that is shown, each file
/// found waits with that folder, is hashed, and is imported into it, also where it is a duplicate that
/// is to be kept; one that is not to be kept is passed over for the next. When none is left the totals
/// are read anew and the folder is listed.
pub proof fn law_import_goes_on<D, P, T>(
    v: VaultView<D, P, T>,
    paths: Vec<P>,
    path: P,
    folder_id: Option<Uuid>,
    name: String,
    keep: bool,
    stats: VaultStats,
)
    ensures
        ({
            let found = VaultMsg::<D, P, T>::FilesFound(paths, folder_id);
            let next = VaultMsg::<D, P, T>::ProcessNextImportQueue;
            let list = requested(v, VaultMsg::<D, P, T>::ImportFilesList(paths));
            let ask = VaultMsg::<D, P, T>::PromptDuplicateEncountered {
                path,
                folder_id,
                existing_file_name: name,
            };
            let answer = VaultMsg::<D, P, T>::ResolveDuplicate {
                path,
                file_name: name,
                folder_id,
                keep,
            };
            let commit = VaultMsg::<D, P, T>::CommitSingleFileImport(path, folder_id);
            let queue = updated(v, found).import_queue;
            &&& v.db is Some ==> list == seq![EffectView::ExpandPaths(paths@, v.current_folder_id)]
            &&& v.db is None ==> list.len() == 1 && (list[0] matches EffectView::Fail(text) && text
                == "Unlock or create an archive before dropping items."@)
            &&& queue.len() == v.import_queue.len() + paths@.len()
            &&& forall|i: int|
                0 <= i < v.import_queue.len() ==> #[trigger] queue[i] == v.import_queue[i]
            &&& forall|i: int|
                0 <= i < paths@.len() ==> #[trigger] queue[v.import_queue.len() + i] == (
                    paths@[i],
                    folder_id,
                )
            &&& requested(v, found) == seq![EffectView::<P>::ProcessQueue]
            &&& v.import_queue.len() > 0 ==> {
                &&& v.db is Some ==> requested(v, next) == seq![
                    EffectView::HashFile(v.import_queue[0].0, v.import_queue[0].1),
                ]
                &&& v.db is None ==> requested(v, next).len() == 0
                &&& updated(v, next).import_queue.len() == v.import_queue.len() - 1
                &&& forall|i: int|
                    0 < i < v.import_queue.len() ==> #[trigger] v.import_queue[i] == updated(
                        v,
                        next,
                    ).import_queue[i - 1]
                &&& updated(v, next).status == v.status
            }
            &&& v.import_queue.len() == 0 ==> {
                &&& updated(v, next).import_queue.len() == 0
                &&& updated(v, next).status == "All items processed."@
                &&& v.db is Some ==> requested(v, next) == seq![
                    EffectView::<P>::RefreshStats,
                    EffectView::Reload,
                ]
                &&& v.db is None ==> requested(v, next) == seq![EffectView::<P>::Reload]
            }
            &&& requested(v, ask) == seq![EffectView::AskDuplicate(path, folder_id, name@)]
            &&& keep ==> requested(v, answer) == seq![EffectView::Commit(path, folder_id)]
                && updated(v, answer) == v
            &&& !keep ==> requested(v, answer) == seq![EffectView::<P>::ProcessQueue] && updated(
                v,
                answer,
            ).status == "Skipped duplicate: "@ + name@
            &&& v.db is Some ==> requested(v, commit) == seq![EffectView::Import(path, folder_id)]
            &&& v.db is None ==> requested(v, commit).len() == 0
            &&& updated(v, VaultMsg::<D, P, T>::StatsRefreshed(stats)).stats == stats
        }),
{
}

/// What is said of a status, an error and the progress is shown as it is; an error is also put before
/// the reader. Compaction, checks, backups and new folders are asked for where there is an archive for
/// them, a folder in the one that is shown.
pub proof fn law_reports_and_commands<D, P, T>(
    v: VaultView<D, P, T>,
    text: String,
    progress: Progress,
)
    ensures
        ({
            let error = VaultMsg::<D, P, T>::SetError(text);
            let going = VaultMsg::<D, P, T>::UpdateProgress(progress, text);
            let compact = VaultMsg::<D, P, T>::TriggerCompact;
            let check = VaultMsg::<D, P, T>::TriggerIntegrityTest;
            let backup = requested(v, VaultMsg::<D, P, T>::PromptExportVault);
            let folder = requested(v, VaultMsg::<D, P, T>::PromptCreateFolder);
            &&& updated(v, VaultMsg::<D, P, T>::SetStatus(text)).status == text@
            &&& requested(v, VaultMsg::<D, P, T>::SetStatus(text)).len() == 0
            &&& updated(v, error).status == "Error: "@ + text@
            &&& requested(v, error).len() == 1
            &&& requested(v, error)[0] matches EffectView::Alert { title, message } && title
                == "Warning / Error"@ && message == text@
            &&& updated(v, going).progress == progress
            &&& updated(v, going).status == text@
            &&& requested(v, going).len() == 0
            &&& v.db is Some ==> {
                &&& requested(v, compact) == seq![EffectView::<P>::Compact]
                &&& updated(v, compact).status == "Compacting database pages (VACUUM)..."@
                &&& requested(v, check) == seq![EffectView::<P>::CheckIntegrity]
                &&& updated(v, check).status == "Checking BLAKE3 chunk hashes..."@
                &&& folder.len() == 1
                &&& folder[0] matches EffectView::CreateFolder { name, parent_id } && name
                    == "NewFolder"@ && parent_id == v.current_folder_id
            }
            &&& v.db is None ==> requested(v, compact).len() == 0 && requested(v, check).len() == 0
                && folder.len() == 0
            &&& v.db is None ==> requested(v, VaultMsg::<D, P, T>::LoadCurrentDirectory).len() == 0
            &&& v.active_vault_path is Some ==> backup == seq![EffectView::<P>::AskBackupTarget]
            &&& v.active_vault_path is None ==> backup.len() == 0
            &&& updated(v, VaultMsg::<D, P, T>::LockVault).status == "Archive locked"@
        }),
{
}

/// Messages that the window answers with nothing to do ask for nothing.
pub proof fn law_quiet_messages<D, P, T>(v: VaultView<D, P, T>, msg: VaultMsg<D, P, T>)
    requires
        msg is PromptCreateVault || msg is PromptOpenVault || msg is PromptAddFile
            || msg is PromptChangePassword || msg is LockVault || msg is StatsRefreshed
            || msg is CloseQuickLook || msg is PreviewLoaded,
    ensures
        requested(v, msg).len() == 0,
        msg is PromptCreateVault || msg is PromptOpenVault || msg is PromptAddFile
            || msg is PromptChangePassword ==> updated(v, msg) == v,
{
}

/// A preview is shown under its name and summary: an image where one was decoded, else the text where
/// the content is one, to the last character, and else a word on why there is nothing to read. To close
/// it hides it and lets the image go.
pub proof fn law_preview_shows_content<D, P, T>(
    v: VaultView<D, P, T>,
    name: String,
    meta: String,
    data: Option<Vec<u8>>,
    is_image: bool,
    texture: Option<T>,
)
    ensures
        ({
            let w = updated(
                v,
                VaultMsg::<D, P, T>::PreviewLoaded(name, meta, data, is_image, texture),
            );
            let closed = updated(v, VaultMsg::<D, P, T>::CloseQuickLook);
            &&& w.show_preview_pane
            &&& w.preview_name == name@
            &&& w.preview_meta == meta@
            &&& w.preview_has_image <==> data is Some && is_image && texture is Some
            &&& w.preview_has_image ==> w.preview_texture == texture && w.preview_text
                == v.preview_text
            &&& !w.preview_has_image ==> w.preview_texture == v.preview_texture
            &&& data is None ==> w.preview_text == "[No Preview Available]"@
            &&& data is Some && is_image && texture is None ==> w.preview_text
                == "[Image format decoding unsupported]"@
            &&& data matches Some(bytes) ==> !is_image ==> if vstd::utf8::valid_utf8(bytes@) {
                vstd::utf8::encode_utf8(w.preview_text) == bytes@
            } else {
                w.preview_text == "[Binary Content - Text Preview Unavailable]"@
            }
            &&& !closed.show_preview_pane
            &&& closed.preview_texture is None
        }),
{
    if let Some(bytes) = data {
        if vstd::utf8::valid_utf8(bytes@) {
            vstd::utf8::decode_utf8_encode_utf8(bytes@);
        }
    }
}

/// The window begins without an archive, at the top, with nothing listed, selected, waiting or shown,
/// sorted by name from the first.
pub proof fn law_window_begins_empty<D, P, T>()
    ensures
        ({
            let v = initial::<D, P, T>();
            &&& v.db is None
            &&& v.active_vault_path is None
            &&& v.current_folder_id is None
            &&& v.folder_path.len() == 1
            &&& v.folder_path[0].folder_id is None
            &&& v.folder_path[0].name == "/root"@
            &&& v.entries.len() == 0
            &&& v.selected_index is None
            &&& v.stats.total_files == 0
            &&& v.stats.total_bytes == 0
            &&& v.stats.compressed_bytes == 0
            &&& !v.is_loading
            &&& v.progress.done == 0
            &&& v.progress.total == 1
            &&& v.status == "Drag files here to compress & encrypt."@
            &&& v.search_query.len() == 0
            &&& v.sort_column is Name
            &&& v.sort_direction is Asc
            &&& v.preview_name.len() == 0
            &&& v.preview_meta.len() == 0
            &&& v.preview_text.len() == 0
            &&& !v.preview_has_image
            &&& v.preview_texture is None
            &&& !v.show_preview_pane
            &&& v.import_queue.len() == 0
        }),
{
}

/// The way to a folder is written with the names of the folders on it, in order and with a slash
/// between each and the next.
pub proof fn law_location_names_every_folder(path: Seq<PathStep>, step: PathStep)
    ensures
        location_text(seq![step]) == step.name,
        path.len() > 0 ==> location_text(path.push(step)) == location_text(path) + "/"@ + step.name,
{
    assert(path.push(step).drop_last() =~= path);
}

} // verus!
