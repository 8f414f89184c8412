use hostbridge::fs_entry::FsEntry;
use hostbridge::image::{image_data_uri, mime_for_path};
use hostbridge::pathing::{extension_of, parent_dir};

#[test]
fn data_uri_for_png_bytes() {
    let uri = image_data_uri("photo.png", &vec![1u8, 2, 3]);
    assert_eq!(uri, "data:image/png;base64,AQID");
}

#[test]
fn data_uri_matches_outside_encoder() {
    let data: Vec<u8> = (0u8..=255).collect();
    let expected = base64::Engine::encode(&base64::engine::general_purpose::STANDARD, &data);
    let uri = image_data_uri("shot.webp", &data);
    assert_eq!(uri, format!("data:image/webp;base64,{}", expected));
}

#[test]
fn data_uri_empty_bytes() {
    let uri = image_data_uri("a/b/c.gif", &Vec::new());
    assert_eq!(uri, "data:image/gif;base64,");
}

#[test]
fn unknown_extension_defaults_to_png() {
    let uri = image_data_uri("document.xyz", &vec![9u8]);
    assert!(uri.starts_with("data:image/png;base64,"));
}

#[test]
fn missing_extension_defaults_to_png() {
    assert_eq!(mime_for_path("no_extension"), "image/png");
    assert_eq!(mime_for_path("dir.d/file"), "image/png");
}

#[test]
fn hidden_file_name_has_no_extension() {
    assert_eq!(extension_of(".gif"), None);
    assert_eq!(mime_for_path("dir/.gif"), "image/png");
}

#[test]
fn recognized_extensions_map_to_their_types() {
    assert_eq!(mime_for_path("a.png"), "image/png");
    assert_eq!(mime_for_path("a.jpg"), "image/jpeg");
    assert_eq!(mime_for_path("a.jpeg"), "image/jpeg");
    assert_eq!(mime_for_path("a.gif"), "image/gif");
    assert_eq!(mime_for_path("a.bmp"), "image/bmp");
    assert_eq!(mime_for_path("a.svg"), "image/svg+xml");
    assert_eq!(mime_for_path("a.webp"), "image/webp");
    assert_eq!(mime_for_path("a.ico"), "image/x-icon");
}

#[test]
fn extension_match_ignores_case() {
    assert_eq!(mime_for_path("IMG.PNG"), "image/png");
    assert_eq!(mime_for_path("photo.JpEg"), "image/jpeg");
}

#[test]
fn extension_of_takes_the_last_dot() {
    assert_eq!(extension_of("a/b/c.txt"), Some("txt".to_string()));
    assert_eq!(extension_of("archive.tar.gz"), Some("gz".to_string()));
    assert_eq!(extension_of("trailing."), Some("".to_string()));
    assert_eq!(extension_of("noext"), None);
}

#[test]
fn parent_dir_drops_the_file_name() {
    assert_eq!(parent_dir("a/b/c"), Some("a/b".to_string()));
    assert_eq!(parent_dir("/etc"), Some("/".to_string()));
    assert_eq!(parent_dir("plain"), None);
    assert_eq!(parent_dir("a/b/"), Some("a/b".to_string()));
    assert_eq!(parent_dir("/"), Some("/".to_string()));
    assert_eq!(parent_dir(""), None);
}

#[test]
fn empty_path_has_no_extension() {
    assert_eq!(extension_of(""), None);
    assert_eq!(mime_for_path(""), "image/png");
}

#[test]
fn fs_entry_holds_what_it_was_given() {
    let e = FsEntry::new("notes.txt".to_string(), "/home/u/notes.txt".to_string(), false, true);
    assert_eq!(e.name, "notes.txt");
    assert_eq!(e.path, "/home/u/notes.txt");
    assert!(!e.is_dir);
    assert!(e.is_file);
}
