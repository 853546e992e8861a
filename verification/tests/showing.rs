use ironvault::db::{FileMetadata, FolderMetadata, SortColumn, SortDirection, VaultStats};
use ironvault::display::{
    accepts_name, accepts_password, duplicate_notice, extension_of, file_kind, format_bytes,
    format_check_progress, format_export_progress, format_import_progress, format_item_count,
    format_timestamp, format_totals, get_file_details, header_label, is_previewable_image,
    preview_summary, ArchiveEntry, EntryRow, FileKind, RowCommand,
};
use ironvault::ident::Uuid;
use ironvault::text::{
    decimal_text, hex_text, is_white_space, signed_decimal_text, split_text, strip_prefix,
    trim_text, two_digit_text,
};

fn by_floats(bytes: usize) -> String {
    let kb: usize = 1024;
    let mb = kb * 1024;
    let gb = mb * 1024;
    let tb = gb * 1024;
    if bytes >= tb {
        format!("{:.2} TB", bytes as f64 / tb as f64)
    } else if bytes >= gb {
        format!("{:.2} GB", bytes as f64 / gb as f64)
    } else if bytes >= mb {
        format!("{:.2} MB", bytes as f64 / mb as f64)
    } else if bytes >= kb {
        format!("{:.2} KB", bytes as f64 / kb as f64)
    } else {
        format!("{} B", bytes)
    }
}

#[test]
fn sizes_have_their_units() {
    assert_eq!(format_bytes(0), "0 B");
    assert_eq!(format_bytes(1023), "1023 B");
    assert_eq!(format_bytes(1024), "1.00 KB");
    assert_eq!(format_bytes(1536), "1.50 KB");
    assert_eq!(format_bytes(1048575), "1024.00 KB");
    assert_eq!(format_bytes(1048576), "1.00 MB");
    assert_eq!(format_bytes(5 * 1024 * 1024 * 1024), "5.00 GB");
    assert_eq!(format_bytes(1 << 40), "1.00 TB");
    assert_eq!(format_bytes(usize::MAX), "16777216.00 TB");
}

#[test]
fn sizes_round_as_double_precision_does() {
    let mut n: usize = 1;
    for i in 0..200_000usize {
        n = n
            .wrapping_mul(6364136223846793005)
            .wrapping_add(1442695040888963407);
        let bytes = n >> (i % 64);
        assert_eq!(format_bytes(bytes), by_floats(bytes));
    }
    for bytes in 0..20_000usize {
        assert_eq!(format_bytes(bytes), by_floats(bytes));
    }
    for shift in 10..64 {
        for step in 0..200usize {
            let bytes = (1usize << shift).wrapping_add(step << (shift / 2)).wrapping_sub(100);
            assert_eq!(format_bytes(bytes), by_floats(bytes));
        }
    }
}

#[test]
fn times_have_day_hour_and_minute() {
    assert_eq!(format_timestamp(0), "-");
    assert_eq!(format_timestamp(1), "Day 0, 00:00 UTC");
    assert_eq!(format_timestamp(86399), "Day 0, 23:59 UTC");
    assert_eq!(format_timestamp(1_700_000_000), "Day 19675, 22:13 UTC");
    for t in [-1i64, -59, -61, -3600, -90061, i64::MIN, i64::MAX, -360000] {
        let rem = t % 86400;
        assert_eq!(
            format_timestamp(t),
            format!(
                "Day {}, {:02}:{:02} UTC",
                t / 86400,
                rem / 3600,
                (rem % 3600) / 60
            )
        );
    }
}

#[test]
fn kinds_go_by_the_extension() {
    assert_eq!(get_file_details("notes.TXT"), ("📝", "Document"));
    assert_eq!(get_file_details("a.b.pdf"), ("📕", "PDF Document"));
    assert_eq!(get_file_details("x.gif"), ("🖼️", "Image"));
    assert_eq!(get_file_details("x.tar.gz"), ("🗜️", "Archive"));
    assert_eq!(get_file_details("main.rs"), ("💻", "Source Code"));
    assert_eq!(get_file_details("s.flac"), ("🎵", "Audio Track"));
    assert_eq!(get_file_details("v.mkv"), ("🎬", "Video File"));
    assert_eq!(get_file_details("noext"), ("📄", "Generic File"));
    assert_eq!(get_file_details("md"), ("📝", "Document"));
    assert_eq!(get_file_details(""), ("📄", "Generic File"));
    assert_eq!(extension_of("A.B"), "b");
    assert_eq!(extension_of("A."), "");
    assert_eq!(file_kind("7z"), FileKind::Archive);
    assert!(is_previewable_image("x.JPEG"));
    assert!(!is_previewable_image("x.gif"));
    assert!(!is_previewable_image("x.txt"));
}

#[test]
fn rows_show_their_entries() {
    let folder = FolderMetadata {
        id: Uuid::nil(),
        name: "docs".to_string(),
        parent_id: None,
    };
    let row = EntryRow::init_model(ArchiveEntry::Folder(folder), 4);
    assert_eq!(row.display_icon, "📁");
    assert_eq!(row.display_name, "docs");
    assert_eq!(row.display_type, "File Folder");
    assert_eq!(row.display_size, "-");
    assert_eq!(row.display_encrypted, "-");
    assert_eq!(row.display_modified, "-");
    assert_eq!(row.index, 4);
    assert_eq!(
        row.menu(),
        vec![RowCommand::Open, RowCommand::Rename, RowCommand::Delete]
    );
    let file = FileMetadata {
        id: Uuid::nil(),
        name: "a.rs".to_string(),
        size: 2048,
        compressed_size: 100,
        created_at: 86400,
        folder_id: None,
        checksum: String::new(),
    };
    let row = EntryRow::init_model(ArchiveEntry::File(file), 5);
    assert_eq!(row.display_icon, "💻");
    assert_eq!(row.display_type, "Source Code");
    assert_eq!(row.display_size, "2.00 KB");
    assert_eq!(row.display_encrypted, "100 B");
    assert_eq!(row.display_modified, "Day 1, 00:00 UTC");
    let menu: Vec<(&str, &str)> = row.menu().iter().map(|c| (c.label(), c.action())).collect();
    assert_eq!(
        menu,
        vec![
            ("Quick Look / Preview", "preview"),
            ("Extract File...", "extract"),
            ("Rename...", "rename"),
            ("Delete", "delete")
        ]
    );
    assert_eq!(RowCommand::Open.label(), "Open Folder");
    assert_eq!(RowCommand::Open.action(), "open");
}

#[test]
fn headers_show_the_order() {
    let label = |c, d| header_label(c, SortColumn::EncryptedSize, d);
    assert_eq!(label(SortColumn::EncryptedSize, SortDirection::Asc), "ENCR ▲");
    assert_eq!(label(SortColumn::EncryptedSize, SortDirection::Desc), "ENCR ▼");
    assert_eq!(label(SortColumn::Name, SortDirection::Asc), "NAME");
    assert_eq!(
        header_label(SortColumn::EncryptedSize, SortColumn::Name, SortDirection::Asc),
        "ENCRYPTED"
    );
    assert_eq!(
        header_label(SortColumn::Modified, SortColumn::Modified, SortDirection::Desc),
        "MODIFIED ▼"
    );
    assert_eq!(
        header_label(SortColumn::Size, SortColumn::Size, SortDirection::Asc),
        "SIZE ▲"
    );
}

#[test]
fn messages_are_exact() {
    let stats = VaultStats {
        total_files: 3,
        total_bytes: 2048,
        compressed_bytes: 1024,
    };
    assert_eq!(
        format_totals(&stats, "50.0"),
        "Files: 3 | Raw: 2.00 KB | Zstd Size: 1.00 KB (50.0% ratio)"
    );
    assert_eq!(format_item_count(12), "Current: 12 items");
    assert_eq!(
        duplicate_notice("a", "b"),
        "The file 'a' has the exact same cryptographic contents as 'b' already in this vault.\n\nDue to BLAKE3 deduplication, keeping it will reference the existing chunks without consuming additional storage."
    );
    assert_eq!(format_check_progress(1, 20, "f"), "Verifying [1/20]: f");
    assert_eq!(
        format_import_progress("f", 10, 2048),
        "Deduplicating & Ingesting: f (10 B / 2.00 KB)"
    );
    assert_eq!(format_export_progress(1, 2), "Decompressing: 1 B / 2 B");
    assert_eq!(
        preview_summary(1, 2, "0123456789abcdef", 86400),
        "Size: 1 B (Zstd: 2 B)\nHash: 0123456789ab\nCreated: Day 1, 00:00 UTC"
    );
    assert_eq!(
        preview_summary(1, 2, "", 0),
        "Size: 1 B (Zstd: 2 B)\nHash: None\nCreated: -"
    );
    assert_eq!(
        preview_summary(1, 2, "\u{e9}\u{e9}\u{e9}\u{e9}\u{e9}\u{e9}x", 0),
        "Size: 1 B (Zstd: 2 B)\nHash: \u{e9}\u{e9}\u{e9}\u{e9}\u{e9}\u{e9}\nCreated: -"
    );
}

#[test]
fn entered_texts_are_held_to_their_rules() {
    assert!(accepts_password(" "));
    assert!(!accepts_password(""));
    assert!(accepts_name(" a "));
    assert!(!accepts_name(" \t\n"));
    assert!(!accepts_name(""));
}

#[test]
fn white_space_is_that_of_unicode() {
    for c in '\0'..=char::MAX {
        assert_eq!(is_white_space(c), c.is_whitespace());
    }
    for t in ["", " ", " a b ", "\u{3000}x\u{85}", "no", "\ta\n"] {
        assert_eq!(trim_text(t), t.trim());
    }
}

#[test]
fn texts_are_cut_and_numbers_written() {
    assert_eq!(split_text("a.b..", '.'), vec!["a", "b", "", ""]);
    assert_eq!(split_text("", '.'), vec![""]);
    assert_eq!(strip_prefix("file://x", "file://"), Some("x".to_string()));
    assert_eq!(strip_prefix("fil", "file://"), None);
    assert_eq!(strip_prefix("filX://x", "file://"), None);
    for n in [0u64, 9, 10, 99, 100, u64::MAX] {
        assert_eq!(decimal_text(n), n.to_string());
    }
    for n in [0i64, -1, i64::MIN, i64::MAX] {
        assert_eq!(signed_decimal_text(n), n.to_string());
        assert_eq!(two_digit_text(n), format!("{:02}", n));
    }
    for n in -20..120 {
        assert_eq!(two_digit_text(n), format!("{:02}", n));
    }
    assert_eq!(hex_text(&[0, 15, 16, 255]), "000f10ff");
}

#[test]
fn case_of_a_name_makes_no_difference() {
    for name in ["x.png", "a.b.gif", "y.svg", "main.rs", "noext", "z.webp", "t.tar.gz"] {
        let capitals = name.to_ascii_uppercase();
        assert_eq!(get_file_details(name), get_file_details(&capitals));
        assert_eq!(is_previewable_image(name), is_previewable_image(&capitals));
        let image = get_file_details(name).1 == "Image" && extension_of(name) != "gif";
        assert_eq!(is_previewable_image(name), image);
    }
}
