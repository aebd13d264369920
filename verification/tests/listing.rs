use dir_reader::listing::{
    get_extension, get_mime_type, is_hidden, raw_extension_of, read_dir, read_entry, DirProbe,
    EntryKind, EntryMetadata, EntryProbe,
};
use dir_reader::platform::Platform;

fn metadata(kind: EntryKind, len: u64) -> EntryMetadata {
    EntryMetadata { kind, len, modified: Some(1_000), accessed: None, created: Some(3_000) }
}

fn probe(name: &str, kind: EntryKind, len: u64, child_count: Option<u32>) -> EntryProbe {
    EntryProbe {
        name: Some(name.to_string()),
        path: Some(format!("/home/user/{}", name)),
        metadata: Some(metadata(kind, len)),
        is_symlink: false,
        attributes: None,
        child_count,
    }
}

fn dir_probe(children: Vec<EntryProbe>) -> DirProbe {
    DirProbe {
        path: "/home/user".to_string(),
        normalized_path: "/home/user".to_string(),
        exists: true,
        is_dir: true,
        read_error: None,
        children,
    }
}

fn names(probes: Vec<EntryProbe>) -> Vec<String> {
    let listing = read_dir(Platform::Linux, dir_probe(probes)).unwrap();
    listing.entries.into_iter().map(|entry| entry.name).collect()
}

#[test]
fn listing_of_one_file_and_one_directory() {
    let listing = read_dir(
        Platform::Linux,
        dir_probe(vec![
            probe("notes.txt", EntryKind::File, 10, None),
            probe("Photos", EntryKind::Directory, 4096, Some(3)),
        ]),
    )
    .unwrap();
    assert_eq!(listing.path, "/home/user");
    assert_eq!(listing.total_count, 2);
    assert_eq!(listing.dir_count, 1);
    assert_eq!(listing.file_count, 1);
    assert_eq!(listing.entries.len(), 2);
    assert_eq!(listing.entries[0].name, "Photos");
    assert_eq!(listing.entries[1].name, "notes.txt");
    assert_eq!(listing.entries[1].mime.as_deref(), Some("text/plain"));
    assert_eq!(listing.entries[1].size, 10);
    assert_eq!(listing.entries[0].size, 0);
    assert_eq!(listing.entries[0].item_count, Some(3));
    assert_eq!(listing.entries[0].mime, None);
    assert_eq!(listing.entries[1].item_count, None);
}

#[test]
fn total_is_the_sum_of_directories_and_files() {
    let listing = read_dir(
        Platform::Linux,
        dir_probe(vec![
            probe("b", EntryKind::File, 1, None),
            probe("socket", EntryKind::Other, 0, None),
            probe("a", EntryKind::Directory, 0, Some(0)),
            probe("c", EntryKind::File, 2, None),
        ]),
    )
    .unwrap();
    assert_eq!(listing.entries.len(), 4);
    assert_eq!(listing.dir_count, 1);
    assert_eq!(listing.file_count, 2);
    assert_eq!(listing.total_count, 3);
    for entry in &listing.entries {
        assert!(!(entry.is_dir && entry.is_file));
    }
    let socket = listing.entries.iter().find(|entry| entry.name == "socket").unwrap();
    assert!(!socket.is_dir && !socket.is_file);
}

#[test]
fn directories_come_before_files() {
    assert_eq!(
        names(vec![
            probe("zeta.txt", EntryKind::File, 1, None),
            probe("alpha", EntryKind::Directory, 0, None),
            probe("beta.txt", EntryKind::File, 1, None),
            probe("omega", EntryKind::Directory, 0, None),
        ]),
        vec!["alpha", "omega", "beta.txt", "zeta.txt"]
    );
}

#[test]
fn names_are_ordered_without_regard_to_case() {
    assert_eq!(
        names(vec![
            probe("banana", EntryKind::File, 1, None),
            probe("Apple", EntryKind::File, 1, None),
            probe("cherry", EntryKind::File, 1, None),
        ]),
        vec!["Apple", "banana", "cherry"]
    );
}

#[test]
fn entries_with_equal_keys_keep_their_order() {
    assert_eq!(
        names(vec![
            probe("readme", EntryKind::File, 1, None),
            probe("README", EntryKind::File, 1, None),
            probe("Readme", EntryKind::File, 1, None),
            probe("a", EntryKind::File, 1, None),
        ]),
        vec!["a", "readme", "README", "Readme"]
    );
}

#[test]
fn sorting_many_entries() {
    let mut probes = Vec::new();
    for i in (0..200u32).rev() {
        probes.push(probe(&format!("file{:03}", i), EntryKind::File, 1, None));
    }
    let sorted = names(probes);
    assert_eq!(sorted.len(), 200);
    for i in 0..200usize {
        assert_eq!(sorted[i], format!("file{:03}", i));
    }
}

#[test]
fn unreadable_children_are_left_out() {
    let mut no_stat = probe("gone", EntryKind::File, 1, None);
    no_stat.metadata = None;
    let mut no_name = probe("x", EntryKind::File, 1, None);
    no_name.name = None;
    let mut no_path = probe("y", EntryKind::File, 1, None);
    no_path.path = None;
    let listing = read_dir(
        Platform::Linux,
        dir_probe(vec![no_stat, probe("kept", EntryKind::File, 1, None), no_name, no_path]),
    )
    .unwrap();
    assert_eq!(listing.entries.len(), 1);
    assert_eq!(listing.entries[0].name, "kept");
    assert_eq!(listing.total_count, 1);
}

#[test]
fn empty_directory() {
    let listing = read_dir(Platform::MacOs, dir_probe(vec![])).unwrap();
    assert!(listing.entries.is_empty());
    assert_eq!((listing.total_count, listing.dir_count, listing.file_count), (0, 0, 0));
}

#[test]
fn missing_path_is_an_error() {
    let mut dir = dir_probe(vec![]);
    dir.exists = false;
    dir.is_dir = false;
    assert_eq!(
        read_dir(Platform::Linux, dir),
        Err("Path does not exist: /home/user".to_string())
    );
}

#[test]
fn path_that_is_no_directory_is_an_error() {
    let mut dir = dir_probe(vec![]);
    dir.is_dir = false;
    assert_eq!(
        read_dir(Platform::Linux, dir),
        Err("Path is not a directory: /home/user".to_string())
    );
}

#[test]
fn directory_that_cannot_be_opened_is_an_error() {
    let mut dir = dir_probe(vec![probe("a", EntryKind::File, 1, None)]);
    dir.read_error = Some("Permission denied (os error 13)".to_string());
    assert_eq!(
        read_dir(Platform::Linux, dir),
        Err("Permission denied (os error 13)".to_string())
    );
}

#[test]
fn listing_path_is_the_normalized_one() {
    let mut dir = dir_probe(vec![]);
    dir.path = "C:\\Users\\me".to_string();
    dir.normalized_path = "C:/Users/me".to_string();
    assert_eq!(read_dir(Platform::Windows, dir).unwrap().path, "C:/Users/me");
}

#[test]
fn entry_of_a_file() {
    let entry = read_entry(Platform::Linux, probe("Report.PDF", EntryKind::File, 2048, Some(9)))
        .unwrap();
    assert_eq!(entry.name, "Report.PDF");
    assert_eq!(entry.ext.as_deref(), Some("pdf"));
    assert_eq!(entry.path, "/home/user/Report.PDF");
    assert_eq!(entry.size, 2048);
    assert_eq!(entry.item_count, None);
    assert_eq!(entry.modified_time, 1_000);
    assert_eq!(entry.accessed_time, 0);
    assert_eq!(entry.created_time, 3_000);
    assert_eq!(entry.mime.as_deref(), Some("application/pdf"));
    assert!(entry.is_file);
    assert!(!entry.is_dir);
    assert!(!entry.is_symlink);
    assert!(!entry.is_hidden);
}

#[test]
fn entry_of_a_directory_has_no_size_and_no_media_type() {
    let mut p = probe(".config.d", EntryKind::Directory, 4096, Some(7));
    p.is_symlink = true;
    let entry = read_entry(Platform::Linux, p).unwrap();
    assert_eq!(entry.size, 0);
    assert_eq!(entry.mime, None);
    assert_eq!(entry.ext.as_deref(), Some("d"));
    assert_eq!(entry.item_count, Some(7));
    assert!(entry.is_dir && !entry.is_file);
    assert!(entry.is_symlink);
    assert!(entry.is_hidden);
}

#[test]
fn entry_of_a_file_without_extension_has_no_media_type() {
    let entry = read_entry(Platform::Linux, probe("Makefile", EntryKind::File, 5, None)).unwrap();
    assert_eq!(entry.ext, None);
    assert_eq!(entry.mime, None);
}

#[test]
fn entry_needs_stat_name_and_path() {
    let mut p = probe("a", EntryKind::File, 1, None);
    p.metadata = None;
    assert_eq!(read_entry(Platform::Linux, p), None);
    let mut p = probe("a", EntryKind::File, 1, None);
    p.name = None;
    assert_eq!(read_entry(Platform::Linux, p), None);
    let mut p = probe("a", EntryKind::File, 1, None);
    p.path = None;
    assert_eq!(read_entry(Platform::Linux, p), None);
}

#[test]
fn extension_is_what_follows_the_last_dot_in_lowercase() {
    assert_eq!(get_extension("notes.txt").as_deref(), Some("txt"));
    assert_eq!(get_extension("archive.TAR.GZ").as_deref(), Some("gz"));
    assert_eq!(get_extension("PHOTO.JPeG").as_deref(), Some("jpeg"));
    assert_eq!(get_extension("ÉTÉ.ÄÖ").as_deref(), Some("äö"));
    assert_eq!(get_extension("trailing.").as_deref(), Some(""));
    assert_eq!(get_extension(".hidden.txt").as_deref(), Some("txt"));
}

#[test]
fn names_without_extension() {
    assert_eq!(get_extension("Makefile"), None);
    assert_eq!(get_extension(".bashrc"), None);
    assert_eq!(get_extension(".."), None);
    assert_eq!(get_extension("."), None);
    assert_eq!(get_extension(""), None);
}

#[test]
fn extension_agrees_with_the_standard_library() {
    for name in ["a.b", "a", ".a", "a.", "..", "...", "a..b", ".a.b", "x.y.z", "..a"] {
        let expected = std::path::Path::new(name)
            .extension()
            .and_then(|ext| ext.to_str())
            .map(|ext| ext.to_lowercase());
        assert_eq!(get_extension(name), expected, "{}", name);
    }
}

#[test]
fn media_types_of_known_extensions() {
    let cases = [
        ("txt", "text/plain"),
        ("text", "text/plain"),
        ("html", "text/html"),
        ("htm", "text/html"),
        ("css", "text/css"),
        ("js", "text/javascript"),
        ("mjs", "text/javascript"),
        ("json", "application/json"),
        ("xml", "application/xml"),
        ("pdf", "application/pdf"),
        ("zip", "application/zip"),
        ("tar", "application/x-tar"),
        ("gz", "application/gzip"),
        ("gzip", "application/gzip"),
        ("rar", "application/vnd.rar"),
        ("7z", "application/x-7z-compressed"),
        ("png", "image/png"),
        ("jpg", "image/jpeg"),
        ("jpeg", "image/jpeg"),
        ("gif", "image/gif"),
        ("webp", "image/webp"),
        ("svg", "image/svg+xml"),
        ("ico", "image/x-icon"),
        ("mp3", "audio/mpeg"),
        ("wav", "audio/wav"),
        ("ogg", "audio/ogg"),
        ("flac", "audio/flac"),
        ("mp4", "video/mp4"),
        ("webm", "video/webm"),
        ("avi", "video/x-msvideo"),
        ("mkv", "video/x-matroska"),
        ("mov", "video/quicktime"),
        ("doc", "application/msword"),
        ("docx", "application/vnd.openxmlformats-officedocument.wordprocessingml.document"),
        ("xls", "application/vnd.ms-excel"),
        ("xlsx", "application/vnd.openxmlformats-officedocument.spreadsheetml.sheet"),
        ("ppt", "application/vnd.ms-powerpoint"),
        ("pptx", "application/vnd.openxmlformats-officedocument.presentationml.presentation"),
        ("rs", "text/x-rust"),
        ("ts", "text/typescript"),
        ("tsx", "text/typescript"),
        ("vue", "text/x-vue"),
        ("py", "text/x-python"),
        ("rb", "text/x-ruby"),
        ("go", "text/x-go"),
        ("java", "text/x-java"),
        ("c", "text/x-c"),
        ("h", "text/x-c"),
        ("cpp", "text/x-c++"),
        ("hpp", "text/x-c++"),
        ("cc", "text/x-c++"),
        ("md", "text/markdown"),
        ("markdown", "text/markdown"),
        ("yaml", "text/yaml"),
        ("yml", "text/yaml"),
        ("toml", "text/x-toml"),
        ("exe", "application/x-msdownload"),
        ("dll", "application/x-msdownload"),
        ("so", "application/x-sharedlib"),
    ];
    for (ext, mime) in cases {
        assert_eq!(get_mime_type(&Some(ext.to_string())).as_deref(), Some(mime), "{}", ext);
    }
}

#[test]
fn media_type_of_other_extensions() {
    assert_eq!(
        get_mime_type(&Some("xyz".to_string())).as_deref(),
        Some("application/octet-stream")
    );
    assert_eq!(
        get_mime_type(&Some("TXT".to_string())).as_deref(),
        Some("application/octet-stream")
    );
    assert_eq!(get_mime_type(&Some(String::new())).as_deref(), Some("application/octet-stream"));
    assert_eq!(get_mime_type(&None), None);
}

#[test]
fn hidden_entries() {
    assert!(is_hidden(Platform::Linux, ".profile", None));
    assert!(is_hidden(Platform::MacOs, ".DS_Store", Some(0)));
    assert!(!is_hidden(Platform::Linux, "profile", Some(2)));
    assert!(!is_hidden(Platform::Linux, "", None));
    assert!(is_hidden(Platform::Windows, "pagefile.sys", Some(0x26)));
    assert!(!is_hidden(Platform::Windows, ".gitignore", Some(0x20)));
    assert!(!is_hidden(Platform::Windows, ".gitignore", None));
}

#[test]
fn extension_as_it_is_written() {
    assert_eq!(raw_extension_of("Report.PDF").as_deref(), Some("PDF"));
    assert_eq!(raw_extension_of("a.b.C").as_deref(), Some("C"));
    assert_eq!(raw_extension_of("trailing.").as_deref(), Some(""));
    assert_eq!(raw_extension_of(".bashrc"), None);
    assert_eq!(raw_extension_of(".."), None);
    assert_eq!(raw_extension_of("plain"), None);
}
