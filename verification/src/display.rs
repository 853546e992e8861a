//! What the window shows of an archive: sizes, times, kinds of files, rows and messages.
use crate::db::{FileMetadata, FolderMetadata, SortColumn, SortDirection, VaultStats};
use crate::text::{
    decimal_text, is_empty_text, same_text, signed_decimal_text, split_text, text_from_utf8,
    trim_text, two_digit_text,
};
use vstd::prelude::*;
use vstd::slice::{slice_subrange, slice_to_vec};
use vstd::string::StringExecFns;

verus! {

/// A quotient rounded to the nearest integer, and to the even one of two that are as near.
pub open spec fn nearest(n: nat, d: nat) -> nat {
    let q = n / d;
    let r = n % d;
    if 2 * r < d || (2 * r == d && q % 2 == 0) {
        q
    } else {
        q + 1
    }
}

/// The distance between double-precision numbers near a number.
pub open spec fn double_unit(n: nat) -> nat
    decreases n,
{
    if n < 0x20_0000_0000_0000 {
        1
    } else {
        2 * double_unit(n / 2)
    }
}

/// The double-precision number nearest to a number.
pub open spec fn double_value(n: nat) -> nat {
    nearest(n, double_unit(n)) * double_unit(n)
}

/// A number of hundredths, with two places behind the point.
pub open spec fn hundredths(n: nat) -> Seq<char> {
    crate::text::decimal(n / 100) + "."@ + crate::text::two_digits((n % 100) as int)
}

/// The unit that a size is shown in, and its name. Sizes below the first are shown in bytes.
pub open spec fn unit_of(bytes: nat) -> (nat, Seq<char>) {
    if bytes >= 0x100_0000_0000 {
        (0x100_0000_0000, " TB"@)
    } else if bytes >= 0x4000_0000 {
        (0x4000_0000, " GB"@)
    } else if bytes >= 0x10_0000 {
        (0x10_0000, " MB"@)
    } else {
        (0x400, " KB"@)
    }
}

/// A size for the reader, rounded to hundredths of its unit.
pub open spec fn bytes_text(bytes: nat) -> Seq<char> {
    if bytes < 0x400 {
        crate::text::decimal(bytes) + " B"@
    } else {
        let (unit, name) = unit_of(bytes);
        hundredths(nearest(double_value(bytes) * 100, unit)) + name
    }
}

/// Rounds a quotient to the nearest integer, ties to even.
fn round_quotient(n: u128, d: u128) -> (q: u128)
    requires
        0 < d <= 0x100_0000_0000,
    ensures
        q == nearest(n as nat, d as nat),
{
    let q: u128 = n / d;
    let r: u128 = n % d;
    if 2 * r < d || (2 * r == d && q % 2 == 0) {
        q
    } else {
        proof {
            assert(q < u128::MAX) by (nonlinear_arith)
                requires
                    q == n / d,
                    r == n % d,
                    r > 0,
                    d > 0,
                    n <= u128::MAX,
            ;
        }
        q + 1
    }
}

/// The distance between double-precision numbers near a number.
fn double_spacing(n: u64) -> (unit: u64)
    ensures
        unit == double_unit(n as nat),
        1 <= unit <= 0x800,
        n >= 0x20_0000_0000_0000 ==> unit * 0x10_0000_0000_0000 <= n,
    decreases n,
{
    proof {
        lemma_unit_bound(n as nat);
    }
    if n < 0x20_0000_0000_0000 {
        1
    } else {
        2 * double_spacing(n / 2)
    }
}

/// The spacing of a number below a power of two.
proof fn lemma_unit_bound(n: nat)
    requires
        n <= u64::MAX,
    ensures
        1 <= double_unit(n) <= 0x800,
        n >= 0x20_0000_0000_0000 ==> double_unit(n) * 0x10_0000_0000_0000 <= n,
{
    reveal_with_fuel(double_unit, 13);
}

/// Writes a number of hundredths with two places behind the point.
fn hundredths_text(n: u64) -> (text: String)
    ensures
        text@ == hundredths(n as nat),
{
    let mut text = decimal_text(n / 100);
    text.append(".");
    text.append(two_digit_text((n % 100) as i64).as_str());
    text
}

/// Writes a size for the reader.
pub fn format_bytes(bytes: usize) -> (text: String)
    ensures
        text@ == bytes_text(bytes as nat),
{
    let n: u64 = bytes as u64;
    if n < 0x400 {
        let mut text = decimal_text(n);
        text.append(" B");
        return text;
    }
    let spacing: u64 = double_spacing(n);
    let steps: u128 = round_quotient(n as u128, spacing as u128);
    proof {
        assert(steps <= n + 1);
        assert(steps * spacing <= (n + 1) * 0x800) by (nonlinear_arith)
            requires
                steps <= n + 1,
                spacing <= 0x800,
        ;
    }
    let value: u128 = steps * (spacing as u128);
    let (unit, name): (u64, &'static str) = if n >= 0x100_0000_0000 {
        (0x100_0000_0000, " TB")
    } else if n >= 0x4000_0000 {
        (0x4000_0000, " GB")
    } else if n >= 0x10_0000 {
        (0x10_0000, " MB")
    } else {
        (0x400, " KB")
    };
    let rounded: u128 = round_quotient(value * 100, unit as u128);
    let mut text = hundredths_text(rounded as u64);
    text.append(name);
    text
}

/// A quotient cut off towards zero.
pub open spec fn cut_quotient(n: int, d: int) -> int {
    if n >= 0 {
        n / d
    } else {
        -((-n) / d)
    }
}

/// What the cut quotient leaves, with the sign of the number.
pub open spec fn cut_remainder(n: int, d: int) -> int {
    n - cut_quotient(n, d) * d
}

/// A time in seconds for the reader: the day, the hour and the minute, or a dash for none.
pub open spec fn timestamp_text(timestamp: int) -> Seq<char> {
    if timestamp == 0 {
        "-"@
    } else {
        let seconds = cut_remainder(timestamp, 86400);
        "Day "@ + crate::text::signed_decimal(cut_quotient(timestamp, 86400)) + ", "@
            + crate::text::two_digits(cut_quotient(seconds, 3600)) + ":"@
            + crate::text::two_digits(cut_quotient(cut_remainder(seconds, 3600), 60)) + " UTC"@
    }
}

/// Writes a time for the reader.
pub fn format_timestamp(timestamp: i64) -> (text: String)
    ensures
        text@ == timestamp_text(timestamp as int),
        timestamp == 0 ==> text@ == "-"@,
        timestamp > 0 ==> exists|days: int, hours: int, minutes: int|
            #![trigger crate::text::signed_decimal(days), crate::text::two_digits(hours), crate::text::two_digits(minutes)]
            text@ == "Day "@ + crate::text::signed_decimal(days) + ", "@ + crate::text::two_digits(
                hours,
            ) + ":"@ + crate::text::two_digits(minutes) + " UTC"@ && 0 <= days && 0 <= hours < 24 && 0 <= minutes
                < 60 && 0 <= timestamp - days * 86400 - hours * 3600 - minutes * 60 < 60,
        timestamp < 0 ==> exists|days: int, hours: int, minutes: int|
            #![trigger crate::text::signed_decimal(days), crate::text::two_digits(hours), crate::text::two_digits(minutes)]
            text@ == "Day "@ + crate::text::signed_decimal(days) + ", "@ + crate::text::two_digits(
                hours,
            ) + ":"@ + crate::text::two_digits(minutes) + " UTC"@ && days <= 0 && -24 < hours <= 0 && -60
                < minutes <= 0 && -60 < timestamp - days * 86400 - hours * 3600 - minutes * 60 <= 0,
{
    if timestamp == 0 {
        return "-".to_string();
    }
    let negative: bool = timestamp < 0;
    let total: u64 = if negative {
        (-(timestamp as i128)) as u64
    } else {
        timestamp as u64
    };
    let days: i64 = (total / 86400) as i64;
    let rem: u64 = total % 86400;
    let hours: i64 = (rem / 3600) as i64;
    let minutes: i64 = ((rem % 3600) / 60) as i64;
    let mut text = "Day ".to_string();
    text.append(signed_decimal_text(if negative { -days } else { days }).as_str());
    text.append(", ");
    text.append(two_digit_text(if negative { -hours } else { hours }).as_str());
    text.append(":");
    text.append(two_digit_text(if negative { -minutes } else { minutes }).as_str());
    text.append(" UTC");
    proof {
        let (d, h, m) = if negative {
            (-(days as int), -(hours as int), -(minutes as int))
        } else {
            (days as int, hours as int, minutes as int)
        };
        assert(text@ == "Day "@ + crate::text::signed_decimal(d) + ", "@ + crate::text::two_digits(h)
            + ":"@ + crate::text::two_digits(m) + " UTC"@);
    }
    text
}

/// The extension of a name in lower case: what stands behind the last point, or the whole name
/// where there is none.
pub open spec fn extension(name: Seq<char>) -> Seq<char> {
    crate::text::lowercase(crate::text::segments(name, '.').last())
}

/// The extension of an ASCII name in lower case.
pub open spec fn ascii_extension(name: Seq<char>) -> Seq<char> {
    crate::text::all_small(crate::text::segments(name, '.').last())
}

/// The kinds of files.
#[derive(Clone, Copy, Debug, PartialEq, Eq, Structural)]
pub enum FileKind {
    Document,
    Pdf,
    Image,
    Archive,
    Source,
    Audio,
    Video,
    Generic,
}

/// The kind of a file by its extension.
pub open spec fn kind_of(ext: Seq<char>) -> FileKind {
    if ext == "txt"@ || ext == "md"@ || ext == "rtf"@ || ext == "doc"@ || ext == "docx"@ {
        FileKind::Document
    } else if ext == "pdf"@ {
        FileKind::Pdf
    } else if ext == "png"@ || ext == "jpg"@ || ext == "jpeg"@ || ext == "webp"@ || ext == "svg"@
        || ext == "gif"@ {
        FileKind::Image
    } else if ext == "zip"@ || ext == "tar"@ || ext == "gz"@ || ext == "7z"@ || ext == "rar"@ {
        FileKind::Archive
    } else if ext == "rs"@ || ext == "js"@ || ext == "ts"@ || ext == "py"@ || ext == "json"@ || ext
        == "c"@ || ext == "cpp"@ || ext == "html"@ || ext == "css"@ {
        FileKind::Source
    } else if ext == "mp3"@ || ext == "wav"@ || ext == "flac"@ || ext == "aac"@ {
        FileKind::Audio
    } else if ext == "mp4"@ || ext == "mkv"@ || ext == "mov"@ || ext == "avi"@ {
        FileKind::Video
    } else {
        FileKind::Generic
    }
}

/// The icon and the description of a kind.
pub open spec fn kind_details(kind: FileKind) -> (Seq<char>, Seq<char>) {
    match kind {
        FileKind::Document => ("📝"@, "Document"@),
        FileKind::Pdf => ("📕"@, "PDF Document"@),
        FileKind::Image => ("🖼️"@, "Image"@),
        FileKind::Archive => ("🗜️"@, "Archive"@),
        FileKind::Source => ("💻"@, "Source Code"@),
        FileKind::Audio => ("🎵"@, "Audio Track"@),
        FileKind::Video => ("🎬"@, "Video File"@),
        FileKind::Generic => ("📄"@, "Generic File"@),
    }
}

/// Whether files with an extension are shown as images.
pub open spec fn shown_as_image(ext: Seq<char>) -> bool {
    ext == "png"@ || ext == "jpg"@ || ext == "jpeg"@ || ext == "webp"@ || ext == "svg"@
}

/// The extension of a name in lower case.
pub fn extension_of(name: &str) -> (ext: String)
    ensures
        ext@ == extension(name@),
        crate::text::ascii(name@) ==> ext@ == ascii_extension(name@),
{
    let parts = split_text(name, '.');
    proof {
        crate::text::lemma_segments_nonempty(name@, '.');
        if crate::text::ascii(name@) {
            crate::text::lemma_last_segment_ascii(name@, '.');
        }
        assert(crate::text::texts(parts@).len() == parts@.len());
        assert(crate::text::texts(parts@).last() == parts@.last()@);
    }
    parts[parts.len() - 1].as_str().to_lowercase()
}

/// The kind of a file with an extension.
pub fn file_kind(ext: &str) -> (kind: FileKind)
    ensures
        kind == kind_of(ext@),
{
    if same_text(ext, "txt") || same_text(ext, "md") || same_text(ext, "rtf") || same_text(
        ext,
        "doc",
    ) || same_text(ext, "docx") {
        FileKind::Document
    } else if same_text(ext, "pdf") {
        FileKind::Pdf
    } else if same_text(ext, "png") || same_text(ext, "jpg") || same_text(ext, "jpeg") || same_text(
        ext,
        "webp",
    ) || same_text(ext, "svg") || same_text(ext, "gif") {
        FileKind::Image
    } else if same_text(ext, "zip") || same_text(ext, "tar") || same_text(ext, "gz") || same_text(
        ext,
        "7z",
    ) || same_text(ext, "rar") {
        FileKind::Archive
    } else if same_text(ext, "rs") || same_text(ext, "js") || same_text(ext, "ts") || same_text(
        ext,
        "py",
    ) || same_text(ext, "json") || same_text(ext, "c") || same_text(ext, "cpp") || same_text(
        ext,
        "html",
    ) || same_text(ext, "css") {
        FileKind::Source
    } else if same_text(ext, "mp3") || same_text(ext, "wav") || same_text(ext, "flac") || same_text(
        ext,
        "aac",
    ) {
        FileKind::Audio
    } else if same_text(ext, "mp4") || same_text(ext, "mkv") || same_text(ext, "mov") || same_text(
        ext,
        "avi",
    ) {
        FileKind::Video
    } else {
        FileKind::Generic
    }
}

impl FileKind {
    /// The icon and the description of the kind.
    pub fn details(&self) -> (details: (&'static str, &'static str))
        ensures
            (details.0@, details.1@) == kind_details(*self),
            (details.0@, details.1@) == (match *self {
                FileKind::Document => ("📝"@, "Document"@),
                FileKind::Pdf => ("📕"@, "PDF Document"@),
                FileKind::Image => ("🖼️"@, "Image"@),
                FileKind::Archive => ("🗜️"@, "Archive"@),
                FileKind::Source => ("💻"@, "Source Code"@),
                FileKind::Audio => ("🎵"@, "Audio Track"@),
                FileKind::Video => ("🎬"@, "Video File"@),
                FileKind::Generic => ("📄"@, "Generic File"@),
            }),
    {
        match self {
            FileKind::Document => ("📝", "Document"),
            FileKind::Pdf => ("📕", "PDF Document"),
            FileKind::Image => ("🖼️", "Image"),
            FileKind::Archive => ("🗜️", "Archive"),
            FileKind::Source => ("💻", "Source Code"),
            FileKind::Audio => ("🎵", "Audio Track"),
            FileKind::Video => ("🎬", "Video File"),
            FileKind::Generic => ("📄", "Generic File"),
        }
    }
}

/// The icon and the description of a file by its name.
pub fn get_file_details(name: &str) -> (details: (&'static str, &'static str))
    ensures
        (details.0@, details.1@) == kind_details(kind_of(extension(name@))),
        crate::text::ascii(name@) ==> (details.0@, details.1@) == kind_details(
            kind_of(ascii_extension(name@)),
        ),
{
    let ext = extension_of(name);
    file_kind(ext.as_str()).details()
}

/// Whether a file with an extension is shown as an image.
pub fn previews_as_image(ext: &str) -> (image: bool)
    ensures
        image == shown_as_image(ext@),
{
    same_text(ext, "png") || same_text(ext, "jpg") || same_text(ext, "jpeg") || same_text(
        ext,
        "webp",
    ) || same_text(ext, "svg")
}

/// Whether a file is shown as an image, by its name.
pub fn is_previewable_image(name: &str) -> (image: bool)
    ensures
        image == shown_as_image(extension(name@)),
        crate::text::ascii(name@) ==> image == shown_as_image(ascii_extension(name@)),
{
    let ext = extension_of(name);
    previews_as_image(ext.as_str())
}

/// Files are shown as images if and only if they are images of another kind than `gif`.
pub proof fn law_shown_images(ext: Seq<char>)
    ensures
        shown_as_image(ext) <==> kind_of(ext) == FileKind::Image && ext != "gif"@,
{
    reveal_strlit("png");
    reveal_strlit("jpg");
    reveal_strlit("jpeg");
    reveal_strlit("webp");
    reveal_strlit("svg");
    reveal_strlit("gif");
    reveal_strlit("txt");
    reveal_strlit("md");
    reveal_strlit("rtf");
    reveal_strlit("doc");
    reveal_strlit("docx");
    reveal_strlit("pdf");
    if shown_as_image(ext) {
        assert(ext[0] == 'p' && ext[1] == 'n' || ext[0] == 'j' || ext[0] == 'w' || ext[0] == 's');
    }
}

/// Whether an ASCII name is written in capitals or not makes no difference to its extension, and so
/// none to the kind of the file and to whether it is shown as an image.
pub proof fn law_case_of_name(name: Seq<char>)
    requires
        crate::text::ascii(name),
    ensures
        crate::text::ascii(crate::text::all_capital(name)),
        ascii_extension(crate::text::all_capital(name)) == ascii_extension(name),
{
    crate::text::lemma_segments_capital(name, '.');
    crate::text::lemma_segments_nonempty(name, '.');
    let last = crate::text::segments(name, '.').last();
    assert(crate::text::all_small(crate::text::all_capital(last)) =~= crate::text::all_small(last));
}

/// An entry of a listing.
#[derive(Clone, Debug)]
pub enum ArchiveEntry {
    Folder(FolderMetadata),
    File(FileMetadata),
}

/// A row of the list.
#[derive(Debug)]
pub struct EntryRow {
    pub entry: ArchiveEntry,
    pub display_icon: &'static str,
    pub display_name: String,
    pub display_type: String,
    pub display_size: String,
    pub display_encrypted: String,
    pub display_modified: String,
    pub index: usize,
}

/// The texts of a row.
pub struct RowView {
    pub icon: Seq<char>,
    pub name: Seq<char>,
    pub kind: Seq<char>,
    pub size: Seq<char>,
    pub encrypted: Seq<char>,
    pub modified: Seq<char>,
}

/// The texts of the row for an entry.
pub open spec fn row_of(entry: ArchiveEntry) -> RowView {
    match entry {
        ArchiveEntry::Folder(f) => RowView {
            icon: "📁"@,
            name: f.name@,
            kind: "File Folder"@,
            size: "-"@,
            encrypted: "-"@,
            modified: "-"@,
        },
        ArchiveEntry::File(f) => {
            let (icon, kind) = kind_details(kind_of(extension(f.name@)));
            RowView {
                icon,
                name: f.name@,
                kind,
                size: bytes_text(f.size as nat),
                encrypted: bytes_text(f.compressed_size as nat),
                modified: timestamp_text(f.created_at as int),
            }
        },
    }
}

impl View for EntryRow {
    type V = RowView;

    open spec fn view(&self) -> RowView {
        RowView {
            icon: self.display_icon@,
            name: self.display_name@,
            kind: self.display_type@,
            size: self.display_size@,
            encrypted: self.display_encrypted@,
            modified: self.display_modified@,
        }
    }
}

/// The commands of the menu of a row.
#[derive(Clone, Copy, Debug, PartialEq, Eq, Structural)]
pub enum RowCommand {
    Open,
    Preview,
    Extract,
    Rename,
    Delete,
}

impl RowCommand {
    /// The label in the menu.
    pub open spec fn label_text(self) -> Seq<char> {
        match self {
            RowCommand::Open => "Open Folder"@,
            RowCommand::Preview => "Quick Look / Preview"@,
            RowCommand::Extract => "Extract File..."@,
            RowCommand::Rename => "Rename..."@,
            RowCommand::Delete => "Delete"@,
        }
    }

    /// The name of the action.
    pub open spec fn action_text(self) -> Seq<char> {
        match self {
            RowCommand::Open => "open"@,
            RowCommand::Preview => "preview"@,
            RowCommand::Extract => "extract"@,
            RowCommand::Rename => "rename"@,
            RowCommand::Delete => "delete"@,
        }
    }

    /// The label in the menu.
    pub fn label(&self) -> (label: &'static str)
        ensures
            label@ == self.label_text(),
            label@ == (match *self {
                RowCommand::Open => "Open Folder"@,
                RowCommand::Preview => "Quick Look / Preview"@,
                RowCommand::Extract => "Extract File..."@,
                RowCommand::Rename => "Rename..."@,
                RowCommand::Delete => "Delete"@,
            }),
    {
        match self {
            RowCommand::Open => "Open Folder",
            RowCommand::Preview => "Quick Look / Preview",
            RowCommand::Extract => "Extract File...",
            RowCommand::Rename => "Rename...",
            RowCommand::Delete => "Delete",
        }
    }

    /// The name of the action.
    pub fn action(&self) -> (action: &'static str)
        ensures
            action@ == self.action_text(),
            action@ == (match *self {
                RowCommand::Open => "open"@,
                RowCommand::Preview => "preview"@,
                RowCommand::Extract => "extract"@,
                RowCommand::Rename => "rename"@,
                RowCommand::Delete => "delete"@,
            }),
    {
        match self {
            RowCommand::Open => "open",
            RowCommand::Preview => "preview",
            RowCommand::Extract => "extract",
            RowCommand::Rename => "rename",
            RowCommand::Delete => "delete",
        }
    }
}

impl EntryRow {
    /// The row for an entry at a place in the list.
    pub fn init_model(entry: ArchiveEntry, index: usize) -> (row: EntryRow)
        ensures
            row.entry == entry,
            row.index == index,
            row@ == row_of(entry),
            match entry {
                ArchiveEntry::Folder(f) => {
                    &&& row.display_icon@ == "📁"@
                    &&& row.display_name@ == f.name@
                    &&& row.display_type@ == "File Folder"@
                    &&& row.display_size@ == "-"@
                    &&& row.display_encrypted@ == "-"@
                    &&& row.display_modified@ == "-"@
                },
                ArchiveEntry::File(f) => {
                    &&& (row.display_icon@, row.display_type@) == kind_details(
                        kind_of(extension(f.name@)),
                    )
                    &&& row.display_name@ == f.name@
                    &&& row.display_size@ == bytes_text(f.size as nat)
                    &&& row.display_encrypted@ == bytes_text(f.compressed_size as nat)
                    &&& row.display_modified@ == timestamp_text(f.created_at as int)
                },
            },
    {
        match entry {
            ArchiveEntry::Folder(f) => EntryRow {
                display_icon: "📁",
                display_name: f.name.as_str().to_string(),
                display_type: "File Folder".to_string(),
                display_size: "-".to_string(),
                display_encrypted: "-".to_string(),
                display_modified: "-".to_string(),
                entry: ArchiveEntry::Folder(f),
                index,
            },
            ArchiveEntry::File(f) => {
                let (icon, kind) = get_file_details(f.name.as_str());
                EntryRow {
                    display_icon: icon,
                    display_name: f.name.as_str().to_string(),
                    display_type: kind.to_string(),
                    display_size: format_bytes(f.size),
                    display_encrypted: format_bytes(f.compressed_size),
                    display_modified: format_timestamp(f.created_at),
                    entry: ArchiveEntry::File(f),
                    index,
                }
            },
        }
    }

    /// The commands in the menu of the row, in order.
    pub fn menu(&self) -> (commands: Vec<RowCommand>)
        ensures
            commands@ == (match self.entry {
                ArchiveEntry::Folder(_) => seq![
                    RowCommand::Open,
                    RowCommand::Rename,
                    RowCommand::Delete,
                ],
                ArchiveEntry::File(_) => seq![
                    RowCommand::Preview,
                    RowCommand::Extract,
                    RowCommand::Rename,
                    RowCommand::Delete,
                ],
            }),
    {
        let mut commands: Vec<RowCommand> = Vec::new();
        match &self.entry {
            ArchiveEntry::Folder(_) => {
                commands.push(RowCommand::Open);
            },
            ArchiveEntry::File(_) => {
                commands.push(RowCommand::Preview);
                commands.push(RowCommand::Extract);
            },
        }
        commands.push(RowCommand::Rename);
        commands.push(RowCommand::Delete);
        commands
    }
}

/// The label of a column header: the column's name, with an arrow on the one that is sorted by.
pub open spec fn header_text(column: SortColumn, sorted: SortColumn, direction: SortDirection) -> Seq<
    char,
> {
    if column == sorted {
        match (column, direction) {
            (SortColumn::Name, SortDirection::Asc) => "NAME ▲"@,
            (SortColumn::Name, SortDirection::Desc) => "NAME ▼"@,
            (SortColumn::Size, SortDirection::Asc) => "SIZE ▲"@,
            (SortColumn::Size, SortDirection::Desc) => "SIZE ▼"@,
            (SortColumn::EncryptedSize, SortDirection::Asc) => "ENCR ▲"@,
            (SortColumn::EncryptedSize, SortDirection::Desc) => "ENCR ▼"@,
            (SortColumn::Modified, SortDirection::Asc) => "MODIFIED ▲"@,
            (SortColumn::Modified, SortDirection::Desc) => "MODIFIED ▼"@,
        }
    } else {
        match column {
            SortColumn::Name => "NAME"@,
            SortColumn::Size => "SIZE"@,
            SortColumn::EncryptedSize => "ENCRYPTED"@,
            SortColumn::Modified => "MODIFIED"@,
        }
    }
}

/// The label of a column header.
pub fn header_label(column: SortColumn, sorted: SortColumn, direction: SortDirection) -> (label:
    &'static str)
    ensures
        label@ == header_text(column, sorted, direction),
        column != sorted ==> label@ == (match column {
            SortColumn::Name => "NAME"@,
            SortColumn::Size => "SIZE"@,
            SortColumn::EncryptedSize => "ENCRYPTED"@,
            SortColumn::Modified => "MODIFIED"@,
        }),
        column == sorted ==> label@ == (match (column, direction) {
            (SortColumn::Name, SortDirection::Asc) => "NAME ▲"@,
            (SortColumn::Name, SortDirection::Desc) => "NAME ▼"@,
            (SortColumn::Size, SortDirection::Asc) => "SIZE ▲"@,
            (SortColumn::Size, SortDirection::Desc) => "SIZE ▼"@,
            (SortColumn::EncryptedSize, SortDirection::Asc) => "ENCR ▲"@,
            (SortColumn::EncryptedSize, SortDirection::Desc) => "ENCR ▼"@,
            (SortColumn::Modified, SortDirection::Asc) => "MODIFIED ▲"@,
            (SortColumn::Modified, SortDirection::Desc) => "MODIFIED ▼"@,
        }),
{
    if column == sorted {
        match (column, direction) {
            (SortColumn::Name, SortDirection::Asc) => "NAME ▲",
            (SortColumn::Name, SortDirection::Desc) => "NAME ▼",
            (SortColumn::Size, SortDirection::Asc) => "SIZE ▲",
            (SortColumn::Size, SortDirection::Desc) => "SIZE ▼",
            (SortColumn::EncryptedSize, SortDirection::Asc) => "ENCR ▲",
            (SortColumn::EncryptedSize, SortDirection::Desc) => "ENCR ▼",
            (SortColumn::Modified, SortDirection::Asc) => "MODIFIED ▲",
            (SortColumn::Modified, SortDirection::Desc) => "MODIFIED ▼",
        }
    } else {
        match column {
            SortColumn::Name => "NAME",
            SortColumn::Size => "SIZE",
            SortColumn::EncryptedSize => "ENCRYPTED",
            SortColumn::Modified => "MODIFIED",
        }
    }
}

/// The totals for the status bar, around a ratio that is written already.
pub open spec fn totals_text(stats: VaultStats, ratio: Seq<char>) -> Seq<char> {
    "Files: "@ + crate::text::decimal(stats.total_files as nat) + " | Raw: "@ + bytes_text(
        stats.total_bytes as nat,
    ) + " | Zstd Size: "@ + bytes_text(stats.compressed_bytes as nat) + " ("@ + ratio + "% ratio)"@
}

/// Writes the totals for the status bar. The ratio comes in percent, with one place behind the
/// point.
pub fn format_totals(stats: &VaultStats, ratio: &str) -> (text: String)
    ensures
        text@ == totals_text(*stats, ratio@),
        text@ == "Files: "@ + crate::text::decimal(stats.total_files as nat) + " | Raw: "@
            + bytes_text(stats.total_bytes as nat) + " | Zstd Size: "@ + bytes_text(
            stats.compressed_bytes as nat,
        ) + " ("@ + ratio@ + "% ratio)"@,
{
    let mut text = "Files: ".to_string();
    text.append(decimal_text(stats.total_files as u64).as_str());
    text.append(" | Raw: ");
    text.append(format_bytes(stats.total_bytes).as_str());
    text.append(" | Zstd Size: ");
    text.append(format_bytes(stats.compressed_bytes).as_str());
    text.append(" (");
    text.append(ratio);
    text.append("% ratio)");
    text
}

/// Writes how many items the list shows.
pub fn format_item_count(count: usize) -> (text: String)
    ensures
        text@ == "Current: "@ + crate::text::decimal(count as nat) + " items"@,
{
    let mut text = "Current: ".to_string();
    text.append(decimal_text(count as u64).as_str());
    text.append(" items");
    text
}

/// What the reader is told of a file with the content of another.
pub open spec fn duplicate_text(new_name: Seq<char>, existing_name: Seq<char>) -> Seq<char> {
    "The file '"@ + new_name + "' has the exact same cryptographic contents as '"@ + existing_name
        + "' already in this vault.\n\nDue to BLAKE3 deduplication, keeping it will reference the existing chunks without consuming additional storage."@
}

/// Tells the reader of a file with the content of another.
pub fn duplicate_notice(new_name: &str, existing_name: &str) -> (text: String)
    ensures
        text@ == duplicate_text(new_name@, existing_name@),
        text@ == "The file '"@ + new_name@ + "' has the exact same cryptographic contents as '"@
            + existing_name@
            + "' already in this vault.\n\nDue to BLAKE3 deduplication, keeping it will reference the existing chunks without consuming additional storage."@,
{
    let mut text = "The file '".to_string();
    text.append(new_name);
    text.append("' has the exact same cryptographic contents as '");
    text.append(existing_name);
    text.append(
        "' already in this vault.\n\nDue to BLAKE3 deduplication, keeping it will reference the existing chunks without consuming additional storage.",
    );
    text
}

/// Whether a password may be submitted: any that is not empty.
pub fn accepts_password(text: &str) -> (accepted: bool)
    ensures
        accepted == (text@.len() > 0),
{
    !is_empty_text(text)
}

/// Whether a name may be submitted: any that is not white space throughout.
pub fn accepts_name(text: &str) -> (accepted: bool)
    ensures
        accepted == (crate::text::trimmed(text@).len() > 0),
        accepted <==> exists|i: int|
            0 <= i < text@.len() && !crate::text::white_space(#[trigger] text@[i]),
{
    proof {
        crate::text::law_trimmed(text@);
    }
    !is_empty_text(trim_text(text).as_str())
}

/// Writes which file is being checked, of how many.
pub fn format_check_progress(current: usize, total: usize, name: &str) -> (text: String)
    ensures
        text@ == "Verifying ["@ + crate::text::decimal(current as nat) + "/"@
            + crate::text::decimal(total as nat) + "]: "@ + name@,
{
    let mut text = "Verifying [".to_string();
    text.append(decimal_text(current as u64).as_str());
    text.append("/");
    text.append(decimal_text(total as u64).as_str());
    text.append("]: ");
    text.append(name);
    text
}

/// Writes how much of a file is imported.
pub fn format_import_progress(name: &str, done: usize, total: usize) -> (text: String)
    ensures
        text@ == "Deduplicating & Ingesting: "@ + name@ + " ("@ + bytes_text(done as nat) + " / "@
            + bytes_text(total as nat) + ")"@,
{
    let mut text = "Deduplicating & Ingesting: ".to_string();
    text.append(name);
    text.append(" (");
    text.append(format_bytes(done).as_str());
    text.append(" / ");
    text.append(format_bytes(total).as_str());
    text.append(")");
    text
}

/// Writes how much of a file is exported.
pub fn format_export_progress(done: usize, total: usize) -> (text: String)
    ensures
        text@ == "Decompressing: "@ + bytes_text(done as nat) + " / "@ + bytes_text(total as nat),
{
    let mut text = "Decompressing: ".to_string();
    text.append(format_bytes(done).as_str());
    text.append(" / ");
    text.append(format_bytes(total).as_str());
    text
}

/// Whether a checksum can be shortened: it is empty, or its first twelve bytes are whole characters.
pub open spec fn can_shorten(checksum: Seq<char>) -> bool {
    let bytes = vstd::utf8::encode_utf8(checksum);
    checksum.len() == 0 || (bytes.len() >= 12 && vstd::utf8::is_char_boundary(bytes, 12))
}

/// The first twelve bytes of a checksum for a preview, or the word for none.
pub open spec fn short_checksum(checksum: Seq<char>) -> Seq<char> {
    if checksum.len() == 0 {
        "None"@
    } else {
        vstd::utf8::decode_utf8(vstd::utf8::encode_utf8(checksum).subrange(0, 12))
    }
}

/// Shortens a checksum for a preview.
fn shorten_checksum(checksum: &str) -> (text: String)
    requires
        can_shorten(checksum@),
    ensures
        text@ == short_checksum(checksum@),
        checksum@.len() == 0 ==> text@ == "None"@,
        checksum@.len() > 0 ==> vstd::utf8::encode_utf8(text@) == vstd::utf8::encode_utf8(
            checksum@,
        ).subrange(0, 12),
{
    if is_empty_text(checksum) {
        return "None".to_string();
    }
    let bytes = checksum.as_bytes();
    proof {
        vstd::utf8::encode_utf8_valid_utf8(checksum@);
        vstd::utf8::valid_utf8_split(bytes@, 12);
        vstd::utf8::decode_utf8_encode_utf8(bytes@.subrange(0, 12));
    }
    match text_from_utf8(slice_to_vec(slice_subrange(bytes, 0, 12))) {
        Some(text) => text,
        None => String::new(),
    }
}

/// What a preview says of a file.
pub open spec fn summary_text(
    size: nat,
    compressed_size: nat,
    checksum: Seq<char>,
    created_at: int,
) -> Seq<char> {
    "Size: "@ + bytes_text(size) + " (Zstd: "@ + bytes_text(compressed_size) + ")\nHash: "@
        + short_checksum(checksum) + "\nCreated: "@ + timestamp_text(created_at)
}

/// Writes what a preview says of a file. The checksum is empty, or twelve bytes of it can be cut off
/// between two characters, as from that of every file read from a complete row.
pub fn preview_summary(size: usize, compressed_size: usize, checksum: &str, created_at: i64) -> (text:
    String)
    requires
        can_shorten(checksum@),
    ensures
        text@ == summary_text(
            size as nat,
            compressed_size as nat,
            checksum@,
            created_at as int,
        ),
        exists|short: Seq<char>|
            #![trigger vstd::utf8::encode_utf8(short)]
            {
                &&& checksum@.len() == 0 ==> short == "None"@
                &&& checksum@.len() > 0 ==> vstd::utf8::encode_utf8(short)
                    == vstd::utf8::encode_utf8(checksum@).subrange(0, 12)
                &&& text@ == "Size: "@ + bytes_text(size as nat) + " (Zstd: "@ + bytes_text(
                    compressed_size as nat,
                ) + ")\nHash: "@ + short + "\nCreated: "@ + timestamp_text(created_at as int)
            },
{
    let mut text = "Size: ".to_string();
    text.append(format_bytes(size).as_str());
    text.append(" (Zstd: ");
    text.append(format_bytes(compressed_size).as_str());
    text.append(")\nHash: ");
    let short = shorten_checksum(checksum);
    proof {
        assert(vstd::utf8::encode_utf8(short@) == vstd::utf8::encode_utf8(short@));
    }
    text.append(short.as_str());
    text.append("\nCreated: ");
    text.append(format_timestamp(created_at).as_str());
    text
}

/// The kinds of files go by their extensions, and by nothing else.
pub proof fn law_kinds_by_extension(ext: Seq<char>)
    ensures
        kind_of(ext) is Document <==> ext == "txt"@ || ext == "md"@ || ext == "rtf"@
            || ext == "doc"@ || ext == "docx"@,
        kind_of(ext) is Pdf <==> ext == "pdf"@,
        kind_of(ext) is Image <==> ext == "png"@ || ext == "jpg"@ || ext == "jpeg"@
            || ext == "webp"@ || ext == "svg"@ || ext == "gif"@,
        kind_of(ext) is Archive <==> ext == "zip"@ || ext == "tar"@ || ext == "gz"@ || ext == "7z"@
            || ext == "rar"@,
        kind_of(ext) is Source <==> ext == "rs"@ || ext == "js"@ || ext == "ts"@ || ext == "py"@
            || ext == "json"@ || ext == "c"@ || ext == "cpp"@ || ext == "html"@ || ext == "css"@,
        kind_of(ext) is Audio <==> ext == "mp3"@ || ext == "wav"@ || ext == "flac"@
            || ext == "aac"@,
        kind_of(ext) is Video <==> ext == "mp4"@ || ext == "mkv"@ || ext == "mov"@ || ext == "avi"@,
{
    reveal_strlit("txt");
    reveal_strlit("md");
    reveal_strlit("rtf");
    reveal_strlit("doc");
    reveal_strlit("docx");
    reveal_strlit("pdf");
    reveal_strlit("png");
    reveal_strlit("jpg");
    reveal_strlit("jpeg");
    reveal_strlit("webp");
    reveal_strlit("svg");
    reveal_strlit("gif");
    reveal_strlit("zip");
    reveal_strlit("tar");
    reveal_strlit("gz");
    reveal_strlit("7z");
    reveal_strlit("rar");
    reveal_strlit("rs");
    reveal_strlit("js");
    reveal_strlit("ts");
    reveal_strlit("py");
    reveal_strlit("json");
    reveal_strlit("c");
    reveal_strlit("cpp");
    reveal_strlit("html");
    reveal_strlit("css");
    reveal_strlit("mp3");
    reveal_strlit("wav");
    reveal_strlit("flac");
    reveal_strlit("aac");
    reveal_strlit("mp4");
    reveal_strlit("mkv");
    reveal_strlit("mov");
    reveal_strlit("avi");
    assert("txt"@.len() == 3 && "txt"@[0] == 't' && "txt"@[1] == 'x' && "txt"@[2] == 't');
    assert("md"@.len() == 2 && "md"@[0] == 'm' && "md"@[1] == 'd');
    assert("rtf"@.len() == 3 && "rtf"@[0] == 'r' && "rtf"@[1] == 't' && "rtf"@[2] == 'f');
    assert("doc"@.len() == 3 && "doc"@[0] == 'd' && "doc"@[1] == 'o' && "doc"@[2] == 'c');
    assert("docx"@.len() == 4 && "docx"@[0] == 'd' && "docx"@[1] == 'o' && "docx"@[2] == 'c'
        && "docx"@[3] == 'x');
    assert("pdf"@.len() == 3 && "pdf"@[0] == 'p' && "pdf"@[1] == 'd' && "pdf"@[2] == 'f');
    assert("png"@.len() == 3 && "png"@[0] == 'p' && "png"@[1] == 'n' && "png"@[2] == 'g');
    assert("jpg"@.len() == 3 && "jpg"@[0] == 'j' && "jpg"@[1] == 'p' && "jpg"@[2] == 'g');
    assert("jpeg"@.len() == 4 && "jpeg"@[0] == 'j' && "jpeg"@[1] == 'p' && "jpeg"@[2] == 'e'
        && "jpeg"@[3] == 'g');
    assert("webp"@.len() == 4 && "webp"@[0] == 'w' && "webp"@[1] == 'e' && "webp"@[2] == 'b'
        && "webp"@[3] == 'p');
    assert("svg"@.len() == 3 && "svg"@[0] == 's' && "svg"@[1] == 'v' && "svg"@[2] == 'g');
    assert("gif"@.len() == 3 && "gif"@[0] == 'g' && "gif"@[1] == 'i' && "gif"@[2] == 'f');
    assert("zip"@.len() == 3 && "zip"@[0] == 'z' && "zip"@[1] == 'i' && "zip"@[2] == 'p');
    assert("tar"@.len() == 3 && "tar"@[0] == 't' && "tar"@[1] == 'a' && "tar"@[2] == 'r');
    assert("gz"@.len() == 2 && "gz"@[0] == 'g' && "gz"@[1] == 'z');
    assert("7z"@.len() == 2 && "7z"@[0] == '7' && "7z"@[1] == 'z');
    assert("rar"@.len() == 3 && "rar"@[0] == 'r' && "rar"@[1] == 'a' && "rar"@[2] == 'r');
    assert("rs"@.len() == 2 && "rs"@[0] == 'r' && "rs"@[1] == 's');
    assert("js"@.len() == 2 && "js"@[0] == 'j' && "js"@[1] == 's');
    assert("ts"@.len() == 2 && "ts"@[0] == 't' && "ts"@[1] == 's');
    assert("py"@.len() == 2 && "py"@[0] == 'p' && "py"@[1] == 'y');
    assert("json"@.len() == 4 && "json"@[0] == 'j' && "json"@[1] == 's' && "json"@[2] == 'o'
        && "json"@[3] == 'n');
    assert("c"@.len() == 1 && "c"@[0] == 'c');
    assert("cpp"@.len() == 3 && "cpp"@[0] == 'c' && "cpp"@[1] == 'p' && "cpp"@[2] == 'p');
    assert("html"@.len() == 4 && "html"@[0] == 'h' && "html"@[1] == 't' && "html"@[2] == 'm'
        && "html"@[3] == 'l');
    assert("css"@.len() == 3 && "css"@[0] == 'c' && "css"@[1] == 's' && "css"@[2] == 's');
    assert("mp3"@.len() == 3 && "mp3"@[0] == 'm' && "mp3"@[1] == 'p' && "mp3"@[2] == '3');
    assert("wav"@.len() == 3 && "wav"@[0] == 'w' && "wav"@[1] == 'a' && "wav"@[2] == 'v');
    assert("flac"@.len() == 4 && "flac"@[0] == 'f' && "flac"@[1] == 'l' && "flac"@[2] == 'a'
        && "flac"@[3] == 'c');
    assert("aac"@.len() == 3 && "aac"@[0] == 'a' && "aac"@[1] == 'a' && "aac"@[2] == 'c');
    assert("mp4"@.len() == 3 && "mp4"@[0] == 'm' && "mp4"@[1] == 'p' && "mp4"@[2] == '4');
    assert("mkv"@.len() == 3 && "mkv"@[0] == 'm' && "mkv"@[1] == 'k' && "mkv"@[2] == 'v');
    assert("mov"@.len() == 3 && "mov"@[0] == 'm' && "mov"@[1] == 'o' && "mov"@[2] == 'v');
    assert("avi"@.len() == 3 && "avi"@[0] == 'a' && "avi"@[1] == 'v' && "avi"@[2] == 'i');
}

/// The nearest quotient is off by half at most, and where it is off by half it is even.
pub proof fn law_nearest(n: nat, d: nat)
    requires
        d > 0,
    ensures
        -(d as int) <= 2 * (nearest(n, d) * d - n) <= d,
        2 * (nearest(n, d) * d - n) == d || 2 * (nearest(n, d) * d - n) == -(d as int) ==> nearest(
            n,
            d,
        ) % 2 == 0,
{
    let q = n / d;
    let r = n % d;
    vstd::arithmetic::div_mod::lemma_fundamental_div_mod(n as int, d as int);
    assert(d * q == q * d) by (nonlinear_arith);
    assert((q + 1) * d == q * d + d) by (nonlinear_arith);
}

/// The distance between double-precision numbers near a number: one below 2 to the 53rd, and from there
/// on the one for which the number has 53 binary places.
pub proof fn law_double_unit(n: nat)
    ensures
        double_unit(n) >= 1,
        n < 0x20_0000_0000_0000 ==> double_unit(n) == 1 && double_value(n) == n,
        n >= 0x20_0000_0000_0000 ==> double_unit(n) * 0x10_0000_0000_0000 <= n < double_unit(n)
            * 0x20_0000_0000_0000,
        -(double_unit(n) as int) <= 2 * (double_value(n) - n) <= double_unit(n),
    decreases n,
{
    if n >= 0x20_0000_0000_0000 {
        law_double_unit(n / 2);
        if n / 2 < 0x20_0000_0000_0000 {
            assert(double_unit(n / 2) == 1);
        }
    }
    law_nearest(n, double_unit(n));
}

/// A size is shown in the largest unit that it reaches, of bytes, KB, MB, GB and TB, each 1024 of the
/// one before; in bytes as it is, and else to the nearest hundredth of its double-precision value.
pub proof fn law_size_is_shown_to_hundredths(bytes: nat)
    ensures
        bytes < 1024 ==> bytes_text(bytes) == crate::text::decimal(bytes) + " B"@,
        bytes >= 1024 ==> ({
            let (unit, name) = if bytes < 1024 * 1024 {
                (1024int, " KB"@)
            } else if bytes < 1024 * 1024 * 1024 {
                (1024 * 1024int, " MB"@)
            } else if bytes < 1024 * 1024 * 1024 * 1024 {
                (1024 * 1024 * 1024int, " GB"@)
            } else {
                (1024 * 1024 * 1024 * 1024int, " TB"@)
            };
            exists|h: nat|
                #![trigger crate::text::decimal(h / 100)]
                {
                    &&& bytes_text(bytes) == crate::text::decimal(h / 100) + "."@
                        + crate::text::two_digits((h % 100) as int) + name
                    &&& -unit <= 2 * (h * unit - 100 * double_value(bytes)) <= unit
                }
        }),
        bytes < 0x20_0000_0000_0000 ==> double_value(bytes) == bytes,
{
    law_double_unit(bytes);
    if bytes >= 1024 {
        let (unit, name) = unit_of(bytes);
        let h = nearest(double_value(bytes) * 100, unit);
        law_nearest(double_value(bytes) * 100, unit);
        assert(bytes_text(bytes) == crate::text::decimal(h / 100) + "."@ + crate::text::two_digits(
            (h % 100) as int,
        ) + name);
    }
}

/// The extension of a name is what stands behind its last point, in lower case, or the whole name where
/// it has no point.
pub proof fn law_extension_is_behind_last_point(name: Seq<char>)
    ensures
        exists|front: Seq<char>, ext: Seq<char>|
            #![trigger front + ext]
            {
                &&& front + ext == name
                &&& !ext.contains('.')
                &&& front.len() == 0 || front.last() == '.'
                &&& extension(name) == crate::text::lowercase(ext)
                &&& ascii_extension(name) == crate::text::all_small(ext)
            },
{
    crate::text::law_segments_make_text(name, '.');
    let parts = crate::text::segments(name, '.');
    let ext = parts.last();
    assert(!parts[parts.len() - 1].contains('.'));
    if parts.len() == 1 {
        let front = Seq::<char>::empty();
        assert(front + ext =~= name);
    } else {
        let front = crate::text::rejoined(parts.drop_last(), '.').push('.');
        assert(front + ext == name);
    }
}

} // verus!
