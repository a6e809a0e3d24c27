use royal_road_archiver::file_system::convert_path_to_os_specific;
use royal_road_archiver::file_system::delete_temp_dir;
use royal_road_archiver::file_system::setup_html2xhtml;
use royal_road_archiver::file_system::file_creation_error;
use royal_road_archiver::file_system::remove_illegal_chars;
use royal_road_archiver::misc::HashMapExt;
use royal_road_archiver::misc::ImageMap;
use royal_road_archiver::misc::Oses;
use royal_road_archiver::text::contains;
use royal_road_archiver::text::decimal_text;
use royal_road_archiver::text::joined;
use royal_road_archiver::text::replaced;
use royal_road_archiver::text::same_text;
use royal_road_archiver::GenerationError;
use royal_road_archiver::GenerationWarnings;
use royal_road_archiver::Warning;

#[test]
fn title_without_reserved_characters_is_unchanged() {
    let title = "The Quiet Road - Book 1 (complete)".to_string();
    assert_eq!(remove_illegal_chars(title.clone()), title);
}

#[test]
fn sanitizing_twice_equals_sanitizing_once() {
    let once = remove_illegal_chars("a/b\\c<d>e:f\"g|h?i*j".to_string());
    let twice = remove_illegal_chars(once.clone());
    assert_eq!(once, twice);
}

#[test]
fn all_nine_reserved_characters_become_spaces() {
    assert_eq!(remove_illegal_chars("/\\<>:\"|?*".to_string()), "         ");
    assert_eq!(remove_illegal_chars("a/b\\c<d>e:f\"g|h?i*j".to_string()), "a b c d e f g h i j");
}

#[test]
fn sanitizing_keeps_other_characters_and_length() {
    assert_eq!(remove_illegal_chars(String::new()), "");
    assert_eq!(remove_illegal_chars("héllo: wörld?".to_string()), "héllo  wörld ");
    assert_eq!(remove_illegal_chars("?".to_string()), " ");
    assert_eq!(remove_illegal_chars("end*".to_string()), "end ");
}

#[test]
fn path_conversion_makes_every_separator_that_of_the_system() {
    let path = "out\\dir/My Book.epub".to_string();
    assert_eq!(convert_path_to_os_specific(path.clone(), Oses::Linux), "out/dir/My Book.epub");
    assert_eq!(convert_path_to_os_specific(path.clone(), Oses::MacOs), "out/dir/My Book.epub");
    assert_eq!(convert_path_to_os_specific(path.clone(), Oses::OtherUnknownOs), "out/dir/My Book.epub");
    assert_eq!(convert_path_to_os_specific(path, Oses::Windows), "out\\dir\\My Book.epub");
}

#[test]
fn path_without_separators_is_unchanged() {
    assert_eq!(convert_path_to_os_specific("book.md".to_string(), Oses::Linux), "book.md");
    assert_eq!(convert_path_to_os_specific("böök.md".to_string(), Oses::Windows), "böök.md");
    assert_eq!(convert_path_to_os_specific(String::new(), Oses::Windows), "");
    assert_eq!(convert_path_to_os_specific("/".to_string(), Oses::Windows), "\\");
    assert_eq!(convert_path_to_os_specific("a/".to_string(), Oses::Linux), "a/");
}

#[test]
fn existing_file_is_an_error_of_its_own() {
    let exists = file_creation_error(true, "out/Foo.md".to_string(), "File exists".to_string());
    assert!(matches!(exists, GenerationError::FileExistsError { file_path } if file_path == "out/Foo.md"));
    let other = file_creation_error(false, "out/Foo.md".to_string(), "Permission denied".to_string());
    assert!(matches!(
        other,
        GenerationError::FileWriteError { file_path, error }
            if file_path == "out/Foo.md" && error == "Permission denied"
    ));
}

#[test]
fn replacing_finds_occurrences_from_the_left() {
    assert_eq!(replaced("aaa", "aa", "b"), "ba");
    assert_eq!(replaced("a&nbsp;b&nbsp;", "&nbsp;", " "), "a b ");
    assert_eq!(replaced("abc", "", "x"), "abc");
    assert_eq!(replaced("abc", "abcd", "x"), "abc");
    assert_eq!(replaced("abcabc", "bc", ""), "aa");
    assert_eq!(replaced("héé", "é", "e"), "hee");
}

#[test]
fn searching_and_joining_texts() {
    assert!(contains("var x; window.chapters = [];", "window.chapters"));
    assert!(!contains("window.chapter", "window.chapters"));
    assert!(contains("abc", ""));
    assert!(same_text("abc", "abc"));
    assert!(!same_text("abc", "abd"));
    assert_eq!(joined("https://www.royalroad.com", "/fiction/1"), "https://www.royalroad.com/fiction/1");
}

#[test]
fn numbers_are_written_in_decimal() {
    assert_eq!(decimal_text(0), "0");
    assert_eq!(decimal_text(7), "7");
    assert_eq!(decimal_text(10), "10");
    assert_eq!(decimal_text(1234567890), "1234567890");
}

#[test]
fn image_map_collapses_identical_tags() {
    let map = ImageMap::new()
        .insert("https://example.com/a.png", "<img src=\"https://example.com/a.png\">")
        .insert("https://example.com/a.png", "<img src=\"https://example.com/a.png\">");
    assert_eq!(map.len(), 1);
    assert_eq!(map.address(0), "https://example.com/a.png");
    assert_eq!(map.tags(0), &vec!["<img src=\"https://example.com/a.png\">".to_string()]);
}

#[test]
fn image_map_keeps_order_of_first_appearance() {
    let map = ImageMap::new()
        .insert("b", "tag-b1")
        .insert("a", "tag-a1")
        .insert("b", "tag-b2")
        .insert("a", "tag-a1");
    assert_eq!(map.len(), 2);
    assert_eq!(map.address(0), "b");
    assert_eq!(map.address(1), "a");
    assert_eq!(map.tags(0), &vec!["tag-b1".to_string(), "tag-b2".to_string()]);
    assert_eq!(map.tags(1), &vec!["tag-a1".to_string()]);
    assert_eq!(map.find("a"), Some(1));
    assert_eq!(map.find("c"), None);
}

fn sample_map() -> ImageMap {
    ImageMap::new().insert("a", "a1").insert("a", "a2").insert("b", "b1")
}

fn entries_of(map: &ImageMap) -> Vec<(String, Vec<String>)> {
    let mut entries = Vec::new();
    for i in 0..map.len() {
        entries.push((map.address(i).clone(), map.tags(i).clone()));
    }
    entries
}

#[test]
fn merging_a_map_with_itself_changes_nothing() {
    let merged = sample_map().join(sample_map());
    assert_eq!(entries_of(&merged), entries_of(&sample_map()));
    let empty = ImageMap::new().join(ImageMap::new());
    assert_eq!(empty.len(), 0);
}

#[test]
fn merging_is_a_union_by_address() {
    let other = ImageMap::new().insert("c", "c1").insert("a", "a2").insert("a", "a3");
    let merged = sample_map().join(other);
    assert_eq!(
        entries_of(&merged),
        vec![
            ("a".to_string(), vec!["a1".to_string(), "a2".to_string(), "a3".to_string()]),
            ("b".to_string(), vec!["b1".to_string()]),
            ("c".to_string(), vec!["c1".to_string()]),
        ]
    );
}

#[test]
fn merging_with_an_empty_map() {
    assert_eq!(entries_of(&sample_map().join(ImageMap::new())), entries_of(&sample_map()));
    assert_eq!(entries_of(&ImageMap::new().join(sample_map())), entries_of(&sample_map()));
}

#[test]
fn systems_have_names() {
    assert_eq!(Oses::Windows.to_text(), "Windows");
    assert_eq!(Oses::Linux.to_text(), "Linux");
    assert_eq!(Oses::MacOs.to_text(), "MacOs");
    assert_eq!(Oses::OtherUnknownOs.to_text(), "OtherUnknownOs");
}

#[test]
fn html2xhtml_is_set_up_for_windows_and_linux_only() {
    let windows = setup_html2xhtml(Oses::Windows).unwrap();
    assert_eq!(windows.archive, "html2xhtml-windows.zip");
    assert_eq!(windows.program, "html2xhtml.exe");
    let linux = setup_html2xhtml(Oses::Linux).unwrap();
    assert_eq!(linux.archive, "html2xhtml-linux.zip");
    assert_eq!(linux.program, "html2xhtml");
    assert!(matches!(
        setup_html2xhtml(Oses::MacOs),
        Err(GenerationError::OsUnsupportedError { os: Oses::MacOs })
    ));
    assert!(matches!(
        setup_html2xhtml(Oses::OtherUnknownOs),
        Err(GenerationError::OsUnsupportedError { os: Oses::OtherUnknownOs })
    ));
}

#[test]
fn a_temporary_directory_that_stays_is_a_warning() {
    let mut warnings = GenerationWarnings::new();
    delete_temp_dir("/tmp/a".to_string(), Ok(()), &mut warnings);
    assert_eq!(warnings.warnings_count(), 0);
    delete_temp_dir("/tmp/b".to_string(), Err("busy".to_string()), &mut warnings);
    assert_eq!(warnings.warnings_count(), 1);
    assert!(matches!(
        &warnings.get_warnings()[0],
        Warning::TempDirDeletionError { warning_msg, temp_directory_path, error }
            if warning_msg == "Unable to close and delete temp directory"
                && temp_directory_path == "/tmp/b"
                && error == "busy"
    ));
}

