use ironvault::db::{FileMetadata, FolderMetadata, SortColumn, SortDirection, VaultStats};
use ironvault::display::RowCommand;
use ironvault::ident::Uuid;
use ironvault::paths::{
    address_path, dropped_paths, file_address, parse_uri_list, resolve_uri, sanitize_db_path,
    PathKind, PathWalk, UriTarget,
};
use ironvault::session::{import_progress, Progress, VaultEffect, VaultModel, VaultMsg};
use ironvault::tasks::{
    extraction_started, finished, hash_finished, lists_folders, message_of, row_message,
    unlock_failed, Task,
};

type Model = VaultModel<u32, String, u8>;
type Msg = VaultMsg<u32, String, u8>;

fn folder(n: u8) -> FolderMetadata {
    FolderMetadata {
        id: Uuid { bytes: [n; 16] },
        name: format!("folder{}", n),
        parent_id: None,
    }
}

fn file(n: u8, name: &str) -> FileMetadata {
    FileMetadata {
        id: Uuid { bytes: [n; 16] },
        name: name.to_string(),
        size: 10,
        compressed_size: 5,
        created_at: 60,
        folder_id: None,
        checksum: "00112233445566".to_string(),
    }
}

fn unlocked() -> Model {
    let mut model = Model::init();
    let stats = VaultStats {
        total_files: 2,
        total_bytes: 3,
        compressed_bytes: 1,
    };
    let effects = model.update(Msg::VaultUnlocked(7, "a.ivault".to_string(), stats));
    assert!(matches!(effects.as_slice(), [VaultEffect::Reload]));
    model.update(Msg::DirectoryInitialized(
        vec![folder(1), folder(2)],
        vec![file(3, "x.png"), file(4, "y.txt")],
    ));
    model
}

#[test]
fn window_starts_empty() {
    let model = Model::init();
    assert_eq!(model.status, "Drag files here to compress & encrypt.");
    assert_eq!(model.location(), "/root");
    assert!(model.can_open());
    assert!(!model.can_edit());
    assert!(!model.can_extract());
    assert!(!model.can_navigate_up());
    assert_eq!(model.progress, Progress { done: 0, total: 1 });
}

#[test]
fn unlocking_shows_the_archive() {
    let mut model = Model::init();
    let effects = model.update(Msg::ExecuteUnlock("p".to_string(), "pw".to_string(), true));
    assert!(model.is_loading);
    assert_eq!(model.status, "Verifying SQLCipher & Zstd headers...");
    assert!(matches!(
        effects.as_slice(),
        [VaultEffect::Unlock { path, password, is_new: true }] if path == "p" && password == "pw"
    ));
    let model = unlocked();
    assert_eq!(model.db, Some(7));
    assert_eq!(model.active_vault_path, Some("a.ivault".to_string()));
    assert_eq!(model.stats.total_files, 2);
    assert_eq!(model.status, "Ready");
    assert!(model.can_edit());
    let names: Vec<&str> = model.entries.iter().map(|e| e.display_name.as_str()).collect();
    assert_eq!(names, vec!["folder1", "folder2", "x.png", "y.txt"]);
    let places: Vec<usize> = model.entries.iter().map(|e| e.index).collect();
    assert_eq!(places, vec![0, 1, 2, 3]);
}

#[test]
fn listing_is_asked_for_with_the_search() {
    let mut model = unlocked();
    model.update(Msg::SetSearchQuery("  ".to_string()));
    let effects = model.update(Msg::LoadCurrentDirectory);
    assert!(matches!(
        effects.as_slice(),
        [VaultEffect::List {
            folder_id: None,
            search: None,
            sort_column: SortColumn::Name,
            sort_direction: SortDirection::Asc,
            limit: 500
        }]
    ));
    assert!(model.is_loading);
    let effects = model.update(Msg::SetSearchQuery(" q ".to_string()));
    assert!(matches!(effects.as_slice(), [VaultEffect::Reload]));
    let effects = model.update(Msg::LoadCurrentDirectory);
    assert!(matches!(
        effects.as_slice(),
        [VaultEffect::List { search: Some(s), .. }] if s == " q "
    ));
}

#[test]
fn going_up_undoes_opening_a_folder() {
    let mut model = unlocked();
    let effects = model.update(Msg::ActivateEntry(1));
    assert!(matches!(effects.as_slice(), [VaultEffect::Reload]));
    assert_eq!(model.current_folder_id, Some(Uuid { bytes: [2; 16] }));
    assert_eq!(model.location(), "/root/folder2");
    model.update(Msg::ActivateEntry(0));
    assert_eq!(model.location(), "/root/folder2/folder1");
    let effects = model.update(Msg::NavigateUp);
    assert!(matches!(effects.as_slice(), [VaultEffect::Reload]));
    assert_eq!(model.current_folder_id, Some(Uuid { bytes: [2; 16] }));
    model.update(Msg::NavigateUp);
    assert_eq!(model.current_folder_id, None);
    assert_eq!(model.location(), "/root");
    assert!(model.update(Msg::NavigateUp).is_empty());
}

#[test]
fn sorting_turns_round() {
    let mut model = unlocked();
    model.update(Msg::ToggleSort(SortColumn::Name));
    assert_eq!(model.sort_direction, SortDirection::Desc);
    model.update(Msg::ToggleSort(SortColumn::Name));
    assert_eq!(model.sort_direction, SortDirection::Asc);
    model.update(Msg::ToggleSort(SortColumn::Name));
    model.update(Msg::ToggleSort(SortColumn::Size));
    assert_eq!(model.sort_column, SortColumn::Size);
    assert_eq!(model.sort_direction, SortDirection::Asc);
}

#[test]
fn selection_stays_in_the_list() {
    let mut model = unlocked();
    model.update(Msg::SelectEntry(Some(3)));
    assert_eq!(model.selected_index, Some(3));
    assert!(model.can_extract());
    model.update(Msg::SelectEntry(Some(4)));
    assert_eq!(model.selected_index, None);
    model.update(Msg::SelectEntry(Some(0)));
    model.update(Msg::SelectEntry(None));
    assert_eq!(model.selected_index, None);
    model.update(Msg::SelectEntry(Some(0)));
    model.update(Msg::DirectoryInitialized(vec![], vec![]));
    assert_eq!(model.selected_index, None);
}

#[test]
fn locking_forgets_the_archive() {
    let mut model = unlocked();
    model.update(Msg::FilesFound(vec!["f".to_string()], None));
    model.update(Msg::SelectEntry(Some(0)));
    assert!(model.update(Msg::LockVault).is_empty());
    assert_eq!(model.db, None);
    assert_eq!(model.active_vault_path, None);
    assert!(model.folder_path_stack.is_empty());
    assert!(model.entries.is_empty());
    assert!(model.import_queue.is_empty());
    assert_eq!(model.selected_index, None);
    assert_eq!(model.stats, VaultStats::default());
    assert_eq!(model.status, "Archive locked");
    assert_eq!(model.location(), "");
    assert!(model.update(Msg::LoadCurrentDirectory).is_empty());
    assert!(model.update(Msg::TriggerCompact).is_empty());
    assert!(model.update(Msg::TriggerIntegrityTest).is_empty());
    assert!(model.update(Msg::ExecuteRekey("x".to_string())).is_empty());
    assert!(model.update(Msg::PromptCreateFolder).is_empty());
    assert!(model.update(Msg::PromptExportVault).is_empty());
    let effects = model.update(Msg::ImportFilesList(vec!["f".to_string()]));
    assert!(matches!(
        effects.as_slice(),
        [VaultEffect::Fail(t)] if t == "Unlock or create an archive before dropping items."
    ));
}

#[test]
fn files_are_imported_in_order() {
    let mut model = unlocked();
    let inside = Some(Uuid { bytes: [1; 16] });
    model.update(Msg::ActivateEntry(0));
    let effects = model.update(Msg::ImportFilesList(vec!["d".to_string()]));
    assert!(matches!(
        effects.as_slice(),
        [VaultEffect::ExpandPaths(p, f)] if p == &vec!["d".to_string()] && *f == inside
    ));
    let found = vec!["d/1".to_string(), "d/2".to_string()];
    let effects = model.update(Msg::FilesFound(found, inside));
    assert!(matches!(effects.as_slice(), [VaultEffect::ProcessQueue]));
    for name in ["d/1", "d/2"] {
        let effects = model.update(Msg::ProcessNextImportQueue);
        assert!(model.is_loading);
        assert!(matches!(
            effects.as_slice(),
            [VaultEffect::HashFile(p, f)] if p == name && *f == inside
        ));
    }
    let effects = model.update(Msg::ProcessNextImportQueue);
    assert!(matches!(
        effects.as_slice(),
        [VaultEffect::RefreshStats, VaultEffect::Reload]
    ));
    assert_eq!(model.status, "All items processed.");
    assert!(!model.is_loading);
    model.update(Msg::StatsRefreshed(VaultStats::default()));
    assert_eq!(model.stats.total_files, 0);
    model.update(Msg::FilesFound(vec!["late".to_string()], None));
    model.db = None;
    assert!(model.update(Msg::ProcessNextImportQueue).is_empty());
    assert!(model.import_queue.is_empty());
    let effects = model.update(Msg::ProcessNextImportQueue);
    assert!(matches!(effects.as_slice(), [VaultEffect::Reload]));
}

#[test]
fn duplicates_are_kept_or_skipped() {
    let mut model = unlocked();
    let effects = model.update(Msg::PromptDuplicateEncountered {
        path: "p".to_string(),
        folder_id: None,
        existing_file_name: "old".to_string(),
    });
    assert!(matches!(
        effects.as_slice(),
        [VaultEffect::AskDuplicate(p, None, n)] if p == "p" && n == "old"
    ));
    let answer = |keep| Msg::ResolveDuplicate {
        path: "p".to_string(),
        file_name: "new".to_string(),
        folder_id: None,
        keep,
    };
    let effects = model.update(answer(true));
    assert!(matches!(effects.as_slice(), [VaultEffect::Commit(p, None)] if p == "p"));
    assert_eq!(model.status, "Ready");
    let effects = model.update(answer(false));
    assert!(matches!(effects.as_slice(), [VaultEffect::ProcessQueue]));
    assert_eq!(model.status, "Skipped duplicate: new");
    let effects = model.update(Msg::CommitSingleFileImport("p".to_string(), None));
    assert!(matches!(effects.as_slice(), [VaultEffect::Import(p, None)] if p == "p"));
}

#[test]
fn commands_are_about_the_chosen_row() {
    let mut model = unlocked();
    assert!(model.update(Msg::DeleteSelectedItem(None)).is_empty());
    let effects = model.update(Msg::DeleteSelectedItem(Some(1)));
    assert!(matches!(
        effects.as_slice(),
        [VaultEffect::Delete { is_folder: true, .. }]
    ));
    assert!(model.is_loading);
    model.update(Msg::SelectEntry(Some(2)));
    let effects = model.update(Msg::PromptRenameSelected(None));
    assert!(matches!(
        effects.as_slice(),
        [VaultEffect::AskRename { name, is_folder: false, .. }] if name == "x.png"
    ));
    let effects = model.update(Msg::PromptExtractFile(None));
    assert!(matches!(
        effects.as_slice(),
        [VaultEffect::AskExtract { name, total_size: 10, .. }] if name == "x.png"
    ));
    assert!(model.update(Msg::PromptExtractFile(Some(0))).is_empty());
    assert!(model.update(Msg::PromptRenameSelected(Some(9))).is_empty());
    let effects = model.update(Msg::ActivateEntry(3));
    assert!(matches!(effects.as_slice(), [VaultEffect::QuickLook(3)]));
    assert!(model.update(Msg::ActivateEntry(9)).is_empty());
}

#[test]
fn previews_show_text_or_image() {
    let mut model = unlocked();
    let effects = model.update(Msg::ShowQuickLook(2));
    assert!(matches!(
        effects.as_slice(),
        [VaultEffect::LoadPreview { name, is_image: true, max_bytes: 262144, size: 10, .. }] if name == "x.png"
    ));
    assert!(model.is_loading);
    assert!(model.update(Msg::ShowQuickLook(0)).is_empty());
    let load = |data: Option<Vec<u8>>, image: bool, texture: Option<u8>| {
        Msg::PreviewLoaded("n".to_string(), "m".to_string(), data, image, texture)
    };
    model.update(load(Some(vec![1]), true, Some(5)));
    assert!(model.preview_has_image && model.show_preview_pane && !model.is_loading);
    assert_eq!(model.preview_texture, Some(5));
    assert_eq!(model.preview_name, "n");
    assert_eq!(model.preview_meta, "m");
    model.update(load(Some(vec![1]), true, None));
    assert!(!model.preview_has_image);
    assert_eq!(model.preview_text, "[Image format decoding unsupported]");
    model.update(load(Some("h\u{e9}".as_bytes().to_vec()), false, None));
    assert_eq!(model.preview_text, "h\u{e9}");
    model.update(load(Some(vec![0xc3]), false, None));
    assert_eq!(
        model.preview_text,
        "[Binary Content - Text Preview Unavailable]"
    );
    model.update(load(None, true, None));
    assert_eq!(model.preview_text, "[No Preview Available]");
    model.update(Msg::CloseQuickLook);
    assert!(!model.show_preview_pane);
    assert_eq!(model.preview_texture, None);
}

#[test]
fn checks_are_reported() {
    let mut model = unlocked();
    let effects = model.update(Msg::TriggerIntegrityTest);
    assert!(matches!(effects.as_slice(), [VaultEffect::CheckIntegrity]));
    let effects = model.update(Msg::IntegrityVerified(vec![
        ("a".to_string(), true),
        ("b".to_string(), true),
    ]));
    assert_eq!(model.status, "Integrity check passed! Verified 2 files.");
    assert!(matches!(
        effects.as_slice(),
        [VaultEffect::Alert { title, message }] if title == "Integrity Check: PASSED"
            && message == "All 2 files passed BLAKE3 checksum and Zstandard decompression verification without any errors."
    ));
    let effects = model.update(Msg::IntegrityVerified(vec![
        ("a".to_string(), false),
        ("b".to_string(), true),
    ]));
    let expected = "Integrity Check FAILED! 1 corrupted file(s) found.";
    assert_eq!(model.status, expected);
    assert!(matches!(
        effects.as_slice(),
        [VaultEffect::Alert { title, message }] if title == "Integrity Warning" && message == expected
    ));
}

#[test]
fn status_progress_and_errors_are_shown() {
    let mut model = unlocked();
    model.update(Msg::UpdateProgress(import_progress(3, 9), "going".to_string()));
    assert!(model.is_loading);
    assert_eq!(model.progress, Progress { done: 3, total: 9 });
    assert_eq!(model.status, "going");
    assert_eq!(import_progress(0, 0), Progress { done: 1, total: 1 });
    model.update(Msg::SetStatus("done".to_string()));
    assert!(!model.is_loading);
    assert_eq!(model.status, "done");
    let effects = model.update(Msg::SetError("bad".to_string()));
    assert_eq!(model.status, "Error: bad");
    assert!(matches!(
        effects.as_slice(),
        [VaultEffect::Alert { title, message }] if title == "Warning / Error" && message == "bad"
    ));
    let effects = model.update(Msg::PromptCreateFolder);
    assert!(matches!(
        effects.as_slice(),
        [VaultEffect::CreateFolder { name, parent_id: None }] if name == "NewFolder"
    ));
    let effects = model.update(Msg::PromptExportVault);
    assert!(matches!(effects.as_slice(), [VaultEffect::AskBackupTarget]));
    let effects = model.update(Msg::ExecuteRekey("k".to_string()));
    assert!(matches!(effects.as_slice(), [VaultEffect::Rekey(k)] if k == "k"));
    let effects = model.update(Msg::TriggerCompact);
    assert!(matches!(effects.as_slice(), [VaultEffect::Compact]));
    assert_eq!(model.status, "Compacting database pages (VACUUM)...");
    for msg in [
        Msg::PromptCreateVault,
        Msg::PromptOpenVault,
        Msg::PromptAddFile,
        Msg::PromptChangePassword,
    ] {
        assert!(model.update(msg).is_empty());
    }
}

fn words(effects: Vec<VaultEffect<String>>) -> Vec<String> {
    effects
        .into_iter()
        .map(|e| match e {
            VaultEffect::Reload => "reload".to_string(),
            VaultEffect::ProcessQueue => "next".to_string(),
            VaultEffect::Status(t) => format!("status {}", t),
            VaultEffect::Fail(t) => format!("fail {}", t),
            VaultEffect::Commit(p, _) => format!("commit {}", p),
            VaultEffect::Duplicate(p, _, n) => format!("duplicate {} {}", p, n),
            _ => "other".to_string(),
        })
        .collect()
}

#[test]
fn tasks_have_their_outcomes() {
    let done = |task| words(finished(task, None));
    let failed = |task| words(finished(task, Some("e")));
    assert!(done(Task::List).is_empty());
    assert!(done(Task::CheckIntegrity).is_empty());
    assert_eq!(
        done(Task::Rekey),
        vec!["status Archive password updated successfully!"]
    );
    assert_eq!(
        done(Task::Compact),
        vec!["status Archive compacted successfully"]
    );
    assert_eq!(done(Task::Backup), vec!["status Backup complete"]);
    assert_eq!(done(Task::Extract), vec!["status Extracted successfully"]);
    assert_eq!(done(Task::CreateFolder), vec!["reload"]);
    assert_eq!(done(Task::Rename), vec!["reload"]);
    assert_eq!(done(Task::Delete), vec!["reload"]);
    assert_eq!(done(Task::Import), vec!["next"]);
    assert_eq!(failed(Task::List), vec!["fail e"]);
    assert_eq!(failed(Task::Rekey), vec!["fail Rekey failed: e"]);
    assert_eq!(failed(Task::Compact), vec!["fail Compact failed: e"]);
    assert_eq!(
        failed(Task::CheckIntegrity),
        vec!["fail Integrity check aborted: e"]
    );
    assert_eq!(failed(Task::Backup), vec!["fail Backup failed: e"]);
    assert_eq!(failed(Task::Extract), vec!["fail e"]);
    assert_eq!(failed(Task::Import), vec!["fail Import error: e", "next"]);
    assert_eq!(
        words(vec![unlock_failed(true, "e")]),
        vec!["fail Creation failed: e"]
    );
    assert_eq!(
        words(vec![unlock_failed(false, "e")]),
        vec!["fail Incorrect password or corrupt file."]
    );
    assert_eq!(
        words(vec![extraction_started("n")]),
        vec!["status Decompressing 'n'..."]
    );
}

#[test]
fn hashed_files_go_on() {
    let after = |res| words(hash_finished("p".to_string(), "/p", None, res));
    assert_eq!(after(Ok(Ok(None))), vec!["commit p"]);
    assert_eq!(after(Ok(Err("busy".to_string()))), vec!["commit p"]);
    assert_eq!(after(Ok(Ok(Some("n".to_string())))), vec!["duplicate p n"]);
    assert_eq!(
        after(Err("gone".to_string())),
        vec!["fail Failed reading file /p: gone", "next"]
    );
}

#[test]
fn row_commands_become_messages() {
    assert!(matches!(
        row_message::<u32, String, u8>(RowCommand::Open, 1),
        VaultMsg::ActivateEntry(1)
    ));
    assert!(matches!(
        row_message::<u32, String, u8>(RowCommand::Preview, 1),
        VaultMsg::ShowQuickLook(1)
    ));
    assert!(matches!(
        row_message::<u32, String, u8>(RowCommand::Extract, 1),
        VaultMsg::PromptExtractFile(Some(1))
    ));
    assert!(matches!(
        row_message::<u32, String, u8>(RowCommand::Rename, 1),
        VaultMsg::PromptRenameSelected(Some(1))
    ));
    assert!(matches!(
        row_message::<u32, String, u8>(RowCommand::Delete, 1),
        VaultMsg::DeleteSelectedItem(Some(1))
    ));
}

#[test]
fn extended_paths_are_made_plain() {
    assert_eq!(sanitize_db_path("\\\\?\\C:\\x"), "C:\\x");
    assert_eq!(sanitize_db_path("\\\\?\\\\\\?\\x"), "\\\\?\\x");
    assert_eq!(sanitize_db_path("\\\\?"), "\\\\?");
    assert_eq!(sanitize_db_path("/home/x"), "/home/x");
    assert_eq!(sanitize_db_path("\\\\?\\"), "");
}

#[test]
fn address_lists_are_read() {
    let uris = parse_uri_list("file:///a\r\n# comment\r\n\r\n  file:///b c  \n#");
    assert_eq!(uris, vec!["file:///a", "file:///b c"]);
    assert!(parse_uri_list("").is_empty());
}

#[test]
fn addresses_lead_to_paths() {
    let local = |t: Option<UriTarget<u8>>| match t {
        Some(UriTarget::Native(n)) => format!("native {}", n),
        Some(UriTarget::Local(p)) => p,
        None => "none".to_string(),
    };
    assert_eq!(local(resolve_uri("file:///a", Some(3), None, false)), "native 3");
    assert_eq!(
        local(resolve_uri("file:///a%20b", None, Some("/a b"), false)),
        "/a b"
    );
    assert_eq!(local(resolve_uri("file:///a%20b", None, None, false)), "/a%20b");
    assert_eq!(local(resolve_uri("http://x", None, Some("y"), false)), "none");
    assert_eq!(file_address("file:///a"), Some("/a".to_string()));
    assert_eq!(file_address("http://a"), None);
    assert_eq!(address_path("/C:/a/b", true), "C:\\a\\b");
    assert_eq!(address_path("//server/a", true), "\\\\server\\a");
    assert_eq!(address_path("/C:/a/b", false), "/C:/a/b");
}

#[test]
fn drops_take_the_first_paths_there_are() {
    assert_eq!(dropped_paths(vec![1], Some(2), vec![3], vec![4]), Some(vec![1]));
    assert_eq!(dropped_paths(vec![], Some(2), vec![3], vec![4]), Some(vec![2]));
    assert_eq!(dropped_paths(vec![], None, vec![3], vec![4]), Some(vec![3]));
    assert_eq!(dropped_paths(vec![], None, vec![], vec![4]), Some(vec![4]));
    assert_eq!(dropped_paths::<u8>(vec![], None, vec![], vec![]), None);
}

#[test]
fn walk_finds_the_files_in_order() {
    let mut walk = PathWalk::begin(vec!["d", "f", "x"]);
    let mut order = Vec::new();
    while let Some(path) = walk.next_path() {
        order.push(path);
        let kind = match path {
            "d" => PathKind::Directory(vec!["d/1", "d/s", "d/2"]),
            "d/s" => PathKind::Directory(vec!["d/s/1"]),
            "x" => PathKind::Other,
            _ => PathKind::File,
        };
        walk.visit(path, kind);
    }
    assert_eq!(order, vec!["d", "d/1", "d/s", "d/s/1", "d/2", "f", "x"]);
    assert_eq!(walk.into_files(), vec!["d/1", "d/s/1", "d/2", "f"]);
}

#[test]
fn requests_to_the_window_become_messages() {
    let message = |effect| message_of::<u32, String, u8>(effect);
    assert!(matches!(
        message(VaultEffect::Reload),
        Ok(VaultMsg::LoadCurrentDirectory)
    ));
    assert!(matches!(
        message(VaultEffect::ProcessQueue),
        Ok(VaultMsg::ProcessNextImportQueue)
    ));
    assert!(matches!(
        message(VaultEffect::QuickLook(3)),
        Ok(VaultMsg::ShowQuickLook(3))
    ));
    assert!(matches!(
        message(VaultEffect::Commit("p".to_string(), None)),
        Ok(VaultMsg::CommitSingleFileImport(p, None)) if p == "p"
    ));
    assert!(matches!(
        message(VaultEffect::Duplicate("p".to_string(), None, "n".to_string())),
        Ok(VaultMsg::PromptDuplicateEncountered { path, existing_file_name, .. })
            if path == "p" && existing_file_name == "n"
    ));
    assert!(matches!(
        message(VaultEffect::Status("s".to_string())),
        Ok(VaultMsg::SetStatus(t)) if t == "s"
    ));
    assert!(matches!(
        message(VaultEffect::Fail("f".to_string())),
        Ok(VaultMsg::SetError(t)) if t == "f"
    ));
    assert!(matches!(
        message(VaultEffect::Compact),
        Err(VaultEffect::Compact)
    ));
    assert!(lists_folders(None));
    assert!(!lists_folders(Some("q")));
}
