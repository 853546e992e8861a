//! A vault kept whole in memory: its files, with their contents.
use crate::ident::Uuid;
use vstd::prelude::*;
use zeroize::Zeroize;

verus! {

/// One file of a vault. Its contents are wiped when it is dropped.
#[derive(Clone, Debug)]
pub struct EncryptedFile {
    pub id: Uuid,
    pub file_name: String,
    pub file_size_bytes: usize,
    pub data: Vec<u8>,
}

/// The files of a vault, in the order in which they were added.
#[derive(Clone, Debug)]
pub struct VaultData {
    pub files: Vec<EncryptedFile>,
}

/// `Zeroize::zeroize` on a byte vector: its memory is overwritten with zeros, and it is left empty.
#[verifier::external_body]
fn wipe_bytes(bytes: &mut Vec<u8>)
    ensures
        final(bytes)@.len() == 0,
    opens_invariants none
    no_unwind
{
    bytes.zeroize()
}

impl Drop for EncryptedFile {
    /// Wipes the contents.
    fn drop(&mut self)
        ensures
            final(self).data@.len() == 0,
        opens_invariants none
        no_unwind
    {
        wipe_bytes(&mut self.data);
    }
}

/// The place of the first file with an identifier.
pub open spec fn first_with_id(files: Seq<EncryptedFile>, id: Uuid) -> Option<int>
    decreases files.len(),
{
    if files.len() == 0 {
        None
    } else {
        match first_with_id(files.drop_last(), id) {
            Some(i) => Some(i),
            None => if files.last().id == id {
                Some(files.len() - 1)
            } else {
                None
            },
        }
    }
}

/// The files that do not have an identifier, in their order.
pub open spec fn without_id(files: Seq<EncryptedFile>, id: Uuid) -> Seq<EncryptedFile>
    decreases files.len(),
{
    if files.len() == 0 {
        Seq::empty()
    } else if files.last().id == id {
        without_id(files.drop_last(), id)
    } else {
        without_id(files.drop_last(), id).push(files.last())
    }
}

/// Whether some file has an identifier.
pub open spec fn has_id(files: Seq<EncryptedFile>, id: Uuid) -> bool {
    exists|i: int| 0 <= i < files.len() && #[trigger] files[i].id == id
}

proof fn lemma_first_with_id(files: Seq<EncryptedFile>, id: Uuid)
    ensures
        match first_with_id(files, id) {
            Some(i) => {
                &&& 0 <= i < files.len()
                &&& files[i].id == id
                &&& forall|j: int| 0 <= j < i ==> (#[trigger] files[j]).id != id
            },
            None => forall|j: int| 0 <= j < files.len() ==> (#[trigger] files[j]).id != id,
        },
    decreases files.len(),
{
    if files.len() > 0 {
        let shorter = files.drop_last();
        lemma_first_with_id(shorter, id);
        assert forall|j: int| 0 <= j < files.len() - 1 implies #[trigger] files[j]
            == shorter[j] by {}
    }
}

/// What is left has no file with the identifier, and is shorter just when there was one.
proof fn lemma_without_id(files: Seq<EncryptedFile>, id: Uuid)
    ensures
        without_id(files, id).len() <= files.len(),
        without_id(files, id).len() < files.len() <==> has_id(files, id),
        !has_id(files, id) ==> without_id(files, id) == files,
        !has_id(without_id(files, id), id),
    decreases files.len(),
{
    if files.len() > 0 {
        let shorter = files.drop_last();
        lemma_without_id(shorter, id);
        if has_id(shorter, id) {
            let i = choose|i: int| 0 <= i < shorter.len() && #[trigger] shorter[i].id == id;
            assert(files[i].id == id);
        }
        if has_id(files, id) {
            let i = choose|i: int| 0 <= i < files.len() && #[trigger] files[i].id == id;
            if i < files.len() - 1 {
                assert(shorter[i].id == id);
            }
        }
        if files.last().id == id {
            assert(files[files.len() - 1].id == id);
        } else {
            let kept = without_id(shorter, id);
            if has_id(kept.push(files.last()), id) {
                let i = choose|i: int|
                    0 <= i < kept.len() + 1 && #[trigger] kept.push(files.last())[i].id == id;
                assert(i < kept.len() ==> kept[i].id == id);
            }
            assert(!has_id(files, id) ==> kept.push(files.last()) =~= files);
        }
    }
}

/// The files without an identifier are those that pass a filter on it.
proof fn lemma_without_is_filter(files: Seq<EncryptedFile>, id: Uuid)
    ensures
        without_id(files, id) == files.filter(|f: EncryptedFile| f.id != id),
    decreases files.len(),
{
    reveal(Seq::filter);
    if files.len() > 0 {
        lemma_without_is_filter(files.drop_last(), id);
    }
}

impl Default for VaultData {
    /// A vault without files.
    fn default() -> (vault: Self)
        ensures
            vault.files@.len() == 0,
    {
        VaultData { files: Vec::new() }
    }
}

impl VaultData {
    /// Adds a file under a fresh random identifier, behind the others, and returns the identifier.
    pub fn add_file(&mut self, file_name: String, data: Vec<u8>) -> (id: Uuid)
        ensures
            is_added(old(self).files@, final(self).files@, id, file_name, data),
            crate::ident::is_random_id(id),
            final(self).files@.len() == old(self).files@.len() + 1,
            final(self).files@.drop_last() == old(self).files@,
            final(self).files@.last().id == id,
            final(self).files@.last().file_name == file_name,
            final(self).files@.last().data == data,
            final(self).files@.last().file_size_bytes == data@.len(),
    {
        let id = Uuid::new_v4();
        self.add_file_with_id(id, file_name, data);
        id
    }

    /// Adds a file under a given identifier, behind the others.
    pub fn add_file_with_id(&mut self, id: Uuid, file_name: String, data: Vec<u8>)
        ensures
            is_added(old(self).files@, final(self).files@, id, file_name, data),
            final(self).files@.len() == old(self).files@.len() + 1,
            final(self).files@.drop_last() == old(self).files@,
            final(self).files@.last().id == id,
            final(self).files@.last().file_name == file_name,
            final(self).files@.last().data == data,
            final(self).files@.last().file_size_bytes == data@.len(),
    {
        let file_size_bytes: usize = data.len();
        self.files.push(EncryptedFile { id, file_name, file_size_bytes, data });
    }

    /// Renames the first file with an identifier, and says whether there is one.
    pub fn rename_file(&mut self, id: Uuid, new_name: String) -> (renamed: bool)
        ensures
            renamed == has_id(old(self).files@, id),
            match first_with_id(old(self).files@, id) {
                Some(i) => final(self).files@ == old(self).files@.update(
                    i,
                    EncryptedFile { file_name: new_name, ..old(self).files@[i] },
                ),
                None => final(self).files@ == old(self).files@,
            },
            final(self).files@.len() == old(self).files@.len(),
            renamed <==> exists|i: int|
                0 <= i < old(self).files@.len() && (#[trigger] old(self).files@[i]).id == id,
            forall|i: int|
                0 <= i < old(self).files@.len() ==> {
                    let before = old(self).files@[i];
                    let after = #[trigger] final(self).files@[i];
                    let first = before.id == id && forall|j: int|
                        0 <= j < i ==> (#[trigger] old(self).files@[j]).id != id;
                    &&& after.id == before.id
                    &&& after.data == before.data
                    &&& after.file_size_bytes == before.file_size_bytes
                    &&& after.file_name == (if first {
                        new_name
                    } else {
                        before.file_name
                    })
                },
    {
        proof {
            lemma_first_with_id(self.files@, id);
        }
        let mut i: usize = 0;
        while i < self.files.len()
            invariant
                i <= self.files@.len(),
                self.files@ == old(self).files@,
                forall|j: int| 0 <= j < i ==> (#[trigger] self.files@[j]).id != id,
            decreases self.files.len() - i,
        {
            if self.files[i].id.same_as(&id) {
                proof {
                    lemma_first_with_id(old(self).files@, id);
                    assert(old(self).files@[i as int].id == id);
                }
                self.files[i].file_name = new_name;
                return true;
            }
            i += 1;
        }
        proof {
            lemma_first_with_id(old(self).files@, id);
        }
        false
    }

    /// Removes every file with an identifier, which wipes its contents, and says whether there was one.
    pub fn delete_file(&mut self, id: Uuid) -> (deleted: bool)
        ensures
            deleted == has_id(old(self).files@, id),
            final(self).files@ == without_id(old(self).files@, id),
            final(self).files@ == old(self).files@.filter(|f: EncryptedFile| f.id != id),
            deleted <==> exists|i: int|
                0 <= i < old(self).files@.len() && (#[trigger] old(self).files@[i]).id == id,
    {
        let initial_len: usize = self.files.len();
        let mut seen: usize = 0;
        let mut kept: usize = 0;
        let ghost before = self.files@;
        proof {
            assert(before.subrange(0, 0) =~= Seq::empty());
            assert(self.files@ =~= without_id(before.subrange(0, 0), id) + before.subrange(
                0,
                before.len() as int,
            ));
        }
        while seen < initial_len
            invariant
                seen <= initial_len == before.len(),
                kept == without_id(before.subrange(0, seen as int), id).len(),
                kept <= seen,
                self.files@ == without_id(before.subrange(0, seen as int), id) + before.subrange(
                    seen as int,
                    before.len() as int,
                ),
            decreases initial_len - seen,
        {
            let ghost done = before.subrange(0, seen as int);
            let ghost next = before.subrange(0, seen + 1);
            let ghost rest = before.subrange(seen as int, before.len() as int);
            proof {
                assert(next.drop_last() =~= done);
                assert(self.files@[kept as int] == before[seen as int]);
            }
            if self.files[kept].id.same_as(&id) {
                let _ = self.files.remove(kept);
                proof {
                    assert(self.files@ =~= without_id(next, id) + before.subrange(
                        seen + 1,
                        before.len() as int,
                    ));
                }
            } else {
                kept += 1;
                proof {
                    assert(self.files@ =~= without_id(next, id) + before.subrange(
                        seen + 1,
                        before.len() as int,
                    ));
                }
            }
            seen += 1;
        }
        proof {
            assert(before.subrange(0, before.len() as int) =~= before);
            assert(self.files@ =~= without_id(before, id));
            lemma_without_id(before, id);
            lemma_without_is_filter(before, id);
        }
        self.files.len() < initial_len
    }
}

/// Whether the files afterwards are those before with one more behind them, which has the given
/// identifier, name and contents, and the length of the contents for its size.
pub open spec fn is_added(
    before: Seq<EncryptedFile>,
    after: Seq<EncryptedFile>,
    id: Uuid,
    file_name: String,
    data: Vec<u8>,
) -> bool {
    after == before.push(
        EncryptedFile { id, file_name, file_size_bytes: data@.len() as usize, data },
    )
}

/// Law: deleting a file right after it was added under a fresh identifier gives back the files
/// there were.
pub proof fn law_delete_undoes_add(
    before: Seq<EncryptedFile>,
    after: Seq<EncryptedFile>,
    id: Uuid,
    file_name: String,
    data: Vec<u8>,
)
    requires
        is_added(before, after, id, file_name, data),
        !has_id(before, id),
    ensures
        has_id(after, id),
        without_id(after, id) == before,
{
    lemma_without_id(before, id);
    assert(after.drop_last() =~= before);
    assert(after[after.len() - 1].id == id);
}

/// Law: what was deleted is gone; deleting it again finds nothing and changes nothing.
pub proof fn law_delete_twice(files: Seq<EncryptedFile>, id: Uuid)
    ensures
        !has_id(without_id(files, id), id),
        without_id(without_id(files, id), id) == without_id(files, id),
{
    lemma_without_id(files, id);
    lemma_without_id(without_id(files, id), id);
}

/// Law: a deletion leaves every file with another identifier, and the files it leaves were there.
pub proof fn law_delete_keeps_others(files: Seq<EncryptedFile>, id: Uuid, file: EncryptedFile)
    requires
        file.id != id,
    ensures
        without_id(files, id).contains(file) <==> files.contains(file),
    decreases files.len(),
{
    if files.len() > 0 {
        let shorter = files.drop_last();
        law_delete_keeps_others(shorter, id, file);
        let kept = without_id(shorter, id);
        assert(files =~= shorter.push(files.last()));
        assert(files.contains(file) <==> shorter.contains(file) || files.last() == file) by {
            if files.contains(file) {
                let i = choose|i: int| 0 <= i < files.len() && files[i] == file;
                if i < shorter.len() {
                    assert(shorter[i] == file);
                }
            }
            if shorter.contains(file) {
                let i = choose|i: int| 0 <= i < shorter.len() && shorter[i] == file;
                assert(files[i] == file);
            }
            if files.last() == file {
                assert(files[files.len() - 1] == file);
            }
        }
        if files.last().id != id {
            let all = kept.push(files.last());
            if all.contains(file) {
                let i = choose|i: int| 0 <= i < all.len() && all[i] == file;
                if i < kept.len() {
                    assert(kept[i] == file);
                }
            }
            if kept.contains(file) {
                let i = choose|i: int| 0 <= i < kept.len() && kept[i] == file;
                assert(all[i] == file);
            }
            if files.last() == file {
                assert(all[kept.len() as int] == file);
            }
        }
    }
}

/// Law: a rename changes the name of one file at most, and nothing else of any file.
pub proof fn law_rename_keeps_contents(files: Seq<EncryptedFile>, id: Uuid, new_name: String)
    requires
        has_id(files, id),
    ensures
        ({
            let i = first_with_id(files, id)->0;
            let after = files.update(i, EncryptedFile { file_name: new_name, ..files[i] });
            &&& first_with_id(files, id) is Some
            &&& after.len() == files.len()
            &&& after[i].file_name == new_name
            &&& forall|j: int|
                0 <= j < files.len() ==> {
                    &&& (#[trigger] after[j]).id == files[j].id
                    &&& after[j].data == files[j].data
                    &&& after[j].file_size_bytes == files[j].file_size_bytes
                    &&& j != i ==> after[j].file_name == files[j].file_name
                }
        }),
{
    lemma_first_with_id(files, id);
}

} // verus!
