//! What becomes of work that was done outside the window.
use crate::display::RowCommand;
use crate::ident::Uuid;
use crate::session::{EffectView, VaultEffect, VaultMsg};
use vstd::prelude::*;
use vstd::string::StringExecFns;

verus! {

/// The kinds of work.
#[derive(Clone, Copy, Debug, PartialEq, Eq, Structural)]
pub enum Task {
    List,
    Rekey,
    Compact,
    CheckIntegrity,
    Backup,
    CreateFolder,
    Rename,
    Delete,
    Extract,
    Import,
}

/// What stands in front of the error that ended some work.
pub open spec fn failure_prefix(task: Task) -> Seq<char> {
    match task {
        Task::Rekey => "Rekey failed: "@,
        Task::Compact => "Compact failed: "@,
        Task::CheckIntegrity => "Integrity check aborted: "@,
        Task::Backup => "Backup failed: "@,
        Task::Import => "Import error: "@,
        _ => Seq::empty(),
    }
}

/// What follows from work that came to its end, with the error that ended it if one did. The result
/// of a listing and that of a check are told the window apart from this.
pub open spec fn outcome<P>(task: Task, error: Option<Seq<char>>) -> Seq<EffectView<P>> {
    match error {
        Some(e) => {
            let failure = EffectView::Fail(failure_prefix(task) + e);
            if task == Task::Import {
                seq![failure, EffectView::ProcessQueue]
            } else {
                seq![failure]
            }
        },
        None => match task {
            Task::List => seq![],
            Task::CheckIntegrity => seq![],
            Task::Rekey => seq![EffectView::Status("Archive password updated successfully!"@)],
            Task::Compact => seq![EffectView::Status("Archive compacted successfully"@)],
            Task::Backup => seq![EffectView::Status("Backup complete"@)],
            Task::Extract => seq![EffectView::Status("Extracted successfully"@)],
            Task::CreateFolder => seq![EffectView::Reload],
            Task::Rename => seq![EffectView::Reload],
            Task::Delete => seq![EffectView::Reload],
            Task::Import => seq![EffectView::ProcessQueue],
        },
    }
}

/// The text of an optional error.
pub open spec fn error_text(error: Option<&str>) -> Option<Seq<char>> {
    match error {
        Some(e) => Some(e@),
        None => None,
    }
}

/// What stands in front of the error that ended some work.
fn prefix_of(task: Task) -> (prefix: String)
    ensures
        prefix@ == failure_prefix(task),
{
    match task {
        Task::Rekey => "Rekey failed: ".to_string(),
        Task::Compact => "Compact failed: ".to_string(),
        Task::CheckIntegrity => "Integrity check aborted: ".to_string(),
        Task::Backup => "Backup failed: ".to_string(),
        Task::Import => "Import error: ".to_string(),
        _ => String::new(),
    }
}

/// What follows from work that came to its end.
pub fn finished<P>(task: Task, error: Option<&str>) -> (effects: Vec<VaultEffect<P>>)
    ensures
        crate::session::effect_views(effects@) == outcome::<P>(task, error_text(error)),
        effects@.len() == outcome::<P>(task, error_text(error)).len(),
        error matches Some(e) ==> (effects@[0] matches VaultEffect::Fail(text) && text@.len()
            >= e@.len() && text@.subrange(text@.len() - e@.len(), text@.len() as int) == e@),
        error is None ==> forall|i: int|
            0 <= i < effects@.len() ==> !(#[trigger] effects@[i] is Fail),
        forall|i: int|
            0 <= i < effects@.len() ==> (#[trigger] effects@[i])@ == outcome::<P>(
                task,
                error_text(error),
            )[i],
{
    let mut effects: Vec<VaultEffect<P>> = Vec::new();
    match error {
        Some(e) => {
            let mut text = prefix_of(task);
            text.append(e);
            effects.push(VaultEffect::Fail(text));
            if task == Task::Import {
                effects.push(VaultEffect::ProcessQueue);
            }
        },
        None => match task {
            Task::List => {},
            Task::CheckIntegrity => {},
            Task::Rekey => {
                effects.push(
                    VaultEffect::Status("Archive password updated successfully!".to_string()),
                );
            },
            Task::Compact => {
                effects.push(VaultEffect::Status("Archive compacted successfully".to_string()));
            },
            Task::Backup => {
                effects.push(VaultEffect::Status("Backup complete".to_string()));
            },
            Task::Extract => {
                effects.push(VaultEffect::Status("Extracted successfully".to_string()));
            },
            Task::CreateFolder => {
                effects.push(VaultEffect::Reload);
            },
            Task::Rename => {
                effects.push(VaultEffect::Reload);
            },
            Task::Delete => {
                effects.push(VaultEffect::Reload);
            },
            Task::Import => {
                effects.push(VaultEffect::ProcessQueue);
            },
        },
    }
    proof {
        assert(crate::session::effect_views(effects@) =~= outcome::<P>(task, error_text(error)));
        assert forall|i: int| 0 <= i < effects@.len() implies (#[trigger] effects@[i])@ == outcome::<
            P,
        >(task, error_text(error))[i] by {
            assert(crate::session::effect_views(effects@)[i] == effects@[i]@);
        }
    }
    effects
}

/// What is said where an archive could not be opened: the error where it was to be made, and where
/// it was there already only that the password or the file is at fault.
pub fn unlock_failed<P>(is_new: bool, error: &str) -> (effect: VaultEffect<P>)
    ensures
        effect@ == EffectView::<P>::Fail(
            if is_new {
                "Creation failed: "@ + error@
            } else {
                "Incorrect password or corrupt file."@
            },
        ),
{
    if is_new {
        let mut text = "Creation failed: ".to_string();
        text.append(error);
        VaultEffect::Fail(text)
    } else {
        VaultEffect::Fail("Incorrect password or corrupt file.".to_string())
    }
}

/// What is said when the extraction of a file begins.
pub fn extraction_started<P>(name: &str) -> (effect: VaultEffect<P>)
    ensures
        effect@ == EffectView::<P>::Status("Decompressing '"@ + name@ + "'..."@),
{
    let mut text = "Decompressing '".to_string();
    text.append(name);
    text.append("'...");
    VaultEffect::Status(text)
}

/// What follows once a file was hashed: its import where no file with its content was found, whether
/// there is none or the search failed; a question where one was; and an error, with the next file,
/// where the file could not be read.
pub open spec fn after_hash<P>(
    path: P,
    shown_path: Seq<char>,
    folder_id: Option<Uuid>,
    res: Result<Result<Option<String>, String>, String>,
) -> Seq<EffectView<P>> {
    match res {
        Ok(Ok(Some(existing))) => seq![EffectView::Duplicate(path, folder_id, existing@)],
        Ok(_) => seq![EffectView::Commit(path, folder_id)],
        Err(e) => seq![
            EffectView::Fail("Failed reading file "@ + shown_path + ": "@ + e@),
            EffectView::ProcessQueue,
        ],
    }
}

/// What follows once a file was hashed. The result is the error of the reading, or else that of the
/// search for a file with the same content, or the name of such a file.
pub fn hash_finished<P>(
    path: P,
    shown_path: &str,
    folder_id: Option<Uuid>,
    res: Result<Result<Option<String>, String>, String>,
) -> (effects: Vec<VaultEffect<P>>)
    ensures
        crate::session::effect_views(effects@) == after_hash(path, shown_path@, folder_id, res),
        effects@.len() == after_hash(path, shown_path@, folder_id, res).len(),
        forall|i: int|
            0 <= i < effects@.len() ==> (#[trigger] effects@[i])@ == after_hash(
                path,
                shown_path@,
                folder_id,
                res,
            )[i],
{
    let mut effects: Vec<VaultEffect<P>> = Vec::new();
    match res {
        Ok(Ok(Some(existing))) => {
            effects.push(VaultEffect::Duplicate(path, folder_id, existing));
        },
        Ok(_) => {
            effects.push(VaultEffect::Commit(path, folder_id));
        },
        Err(e) => {
            let mut text = "Failed reading file ".to_string();
            text.append(shown_path);
            text.append(": ");
            text.append(e.as_str());
            effects.push(VaultEffect::Fail(text));
            effects.push(VaultEffect::ProcessQueue);
        },
    }
    proof {
        assert(crate::session::effect_views(effects@) =~= after_hash(
            path,
            shown_path@,
            folder_id,
            res,
        ));
        assert forall|i: int| 0 <= i < effects@.len() implies (#[trigger] effects@[i])@
            == after_hash(path, shown_path@, folder_id, res)[i] by {
            assert(crate::session::effect_views(effects@)[i] == effects@[i]@);
        }
    }
    effects
}

/// The message that a request of the window is sent back to it as, for a request of that kind.
pub open spec fn as_message<D, P, T>(effect: VaultEffect<P>) -> Option<VaultMsg<D, P, T>> {
    match effect {
        VaultEffect::Reload => Some(VaultMsg::LoadCurrentDirectory),
        VaultEffect::ProcessQueue => Some(VaultMsg::ProcessNextImportQueue),
        VaultEffect::QuickLook(index) => Some(VaultMsg::ShowQuickLook(index)),
        VaultEffect::Commit(path, folder_id) => Some(
            VaultMsg::CommitSingleFileImport(path, folder_id),
        ),
        VaultEffect::Duplicate(path, folder_id, existing_file_name) => Some(
            VaultMsg::PromptDuplicateEncountered { path, folder_id, existing_file_name },
        ),
        VaultEffect::Status(text) => Some(VaultMsg::SetStatus(text)),
        VaultEffect::Fail(text) => Some(VaultMsg::SetError(text)),
        _ => None,
    }
}

/// Makes a request of the window the message that it is sent back as, or gives it back where it is
/// for work outside.
pub fn message_of<D, P, T>(effect: VaultEffect<P>) -> (res: Result<
    VaultMsg<D, P, T>,
    VaultEffect<P>,
>)
    ensures
        match as_message::<D, P, T>(effect) {
            Some(msg) => res == Ok::<VaultMsg<D, P, T>, VaultEffect<P>>(msg),
            None => res == Err::<VaultMsg<D, P, T>, VaultEffect<P>>(effect),
        },
{
    match effect {
        VaultEffect::Reload => Ok(VaultMsg::LoadCurrentDirectory),
        VaultEffect::ProcessQueue => Ok(VaultMsg::ProcessNextImportQueue),
        VaultEffect::QuickLook(index) => Ok(VaultMsg::ShowQuickLook(index)),
        VaultEffect::Commit(path, folder_id) => Ok(
            VaultMsg::CommitSingleFileImport(path, folder_id),
        ),
        VaultEffect::Duplicate(path, folder_id, existing_file_name) => Ok(
            VaultMsg::PromptDuplicateEncountered { path, folder_id, existing_file_name },
        ),
        VaultEffect::Status(text) => Ok(VaultMsg::SetStatus(text)),
        VaultEffect::Fail(text) => Ok(VaultMsg::SetError(text)),
        other => Err(other),
    }
}

/// Whether a listing shows folders: it does where nothing is searched for.
pub fn lists_folders(search: Option<&str>) -> (lists: bool)
    ensures
        lists == (search is None),
{
    search.is_none()
}

/// The message for a command from the menu of a row.
pub fn row_message<D, P, T>(command: RowCommand, index: usize) -> (msg: VaultMsg<D, P, T>)
    ensures
        msg == (match command {
            RowCommand::Open => VaultMsg::<D, P, T>::ActivateEntry(index),
            RowCommand::Preview => VaultMsg::<D, P, T>::ShowQuickLook(index),
            RowCommand::Extract => VaultMsg::<D, P, T>::PromptExtractFile(Some(index)),
            RowCommand::Rename => VaultMsg::<D, P, T>::PromptRenameSelected(Some(index)),
            RowCommand::Delete => VaultMsg::<D, P, T>::DeleteSelectedItem(Some(index)),
        }),
{
    match command {
        RowCommand::Open => VaultMsg::ActivateEntry(index),
        RowCommand::Preview => VaultMsg::ShowQuickLook(index),
        RowCommand::Extract => VaultMsg::PromptExtractFile(Some(index)),
        RowCommand::Rename => VaultMsg::PromptRenameSelected(Some(index)),
        RowCommand::Delete => VaultMsg::DeleteSelectedItem(Some(index)),
    }
}

/// Work that failed is told as an error whose text ends in what went wrong, with words in front for
/// the kinds of work that have some; a failed import goes on with the next file all the same. Work that
/// succeeded is told where it has something to say, and what changed the archive is listed anew.
pub proof fn law_end_of_work<P>(task: Task, error: Option<Seq<char>>)
    ensures
        ({
            let asked = outcome::<P>(task, error);
            &&& error matches Some(e) ==> {
                &&& asked.len() == (if task is Import { 2int } else { 1int })
                &&& asked[0] matches EffectView::Fail(text) && text == (match task {
                    Task::Rekey => "Rekey failed: "@,
                    Task::Compact => "Compact failed: "@,
                    Task::CheckIntegrity => "Integrity check aborted: "@,
                    Task::Backup => "Backup failed: "@,
                    Task::Import => "Import error: "@,
                    Task::List => Seq::<char>::empty(),
                    Task::CreateFolder => Seq::<char>::empty(),
                    Task::Rename => Seq::<char>::empty(),
                    Task::Delete => Seq::<char>::empty(),
                    Task::Extract => Seq::<char>::empty(),
                }) + e
                &&& task is Import ==> asked[1] is ProcessQueue
            }
            &&& error is None ==> {
                &&& task is List || task is CheckIntegrity ==> asked.len() == 0
                &&& !(task is List || task is CheckIntegrity) ==> asked.len() == 1
                &&& task is CreateFolder || task is Rename || task is Delete ==> asked[0] is Reload
                &&& task is Import ==> asked[0] is ProcessQueue
                &&& task is Rekey ==> asked[0] == EffectView::<P>::Status(
                    "Archive password updated successfully!"@,
                )
                &&& task is Compact ==> asked[0] == EffectView::<P>::Status(
                    "Archive compacted successfully"@,
                )
                &&& task is Backup ==> asked[0] == EffectView::<P>::Status("Backup complete"@)
                &&& task is Extract ==> asked[0] == EffectView::<P>::Status(
                    "Extracted successfully"@,
                )
            }
        }),
{
}

/// A file that was hashed is imported into its folder unless a file with its content was found, in
/// which case the reader is asked, with the name of that file; one that could not be read is told, by
/// its path and the error, and the next one follows.
pub proof fn law_hashed_file<P>(
    path: P,
    shown_path: Seq<char>,
    folder_id: Option<Uuid>,
    res: Result<Result<Option<String>, String>, String>,
)
    ensures
        ({
            let asked = after_hash(path, shown_path, folder_id, res);
            match res {
                Ok(Ok(Some(existing))) => asked.len() == 1 && (
                asked[0] matches EffectView::Duplicate(p, f, name) && p == path && f == folder_id
                    && name == existing@),
                Ok(Ok(None)) => asked.len() == 1 && asked[0] == EffectView::Commit(path, folder_id),
                Ok(Err(_)) => asked.len() == 1 && asked[0] == EffectView::Commit(path, folder_id),
                Err(e) => {
                    &&& asked.len() == 2
                    &&& asked[0] matches EffectView::Fail(text) && text == "Failed reading file "@
                        + shown_path + ": "@ + e@
                    &&& asked[1] is ProcessQueue
                },
            }
        }),
{
}

/// A request that is a message to the window itself comes back as that message, with all it carries;
/// any other is none.
pub proof fn law_request_comes_back<D, P, T>(effect: VaultEffect<P>)
    ensures
        match as_message::<D, P, T>(effect) {
            Some(VaultMsg::LoadCurrentDirectory) => effect is Reload,
            Some(VaultMsg::ProcessNextImportQueue) => effect is ProcessQueue,
            Some(VaultMsg::ShowQuickLook(i)) => effect == VaultEffect::<P>::QuickLook(i),
            Some(VaultMsg::CommitSingleFileImport(p, f)) => effect == VaultEffect::Commit(p, f),
            Some(VaultMsg::PromptDuplicateEncountered { path, folder_id, existing_file_name }) => effect
                == VaultEffect::Duplicate(path, folder_id, existing_file_name),
            Some(VaultMsg::SetStatus(text)) => effect == VaultEffect::<P>::Status(text),
            Some(VaultMsg::SetError(text)) => effect == VaultEffect::<P>::Fail(text),
            Some(_) => false,
            None => !(effect is Reload || effect is ProcessQueue || effect is QuickLook
                || effect is Commit || effect is Duplicate || effect is Status || effect is Fail),
        },
{
}

} // verus!
