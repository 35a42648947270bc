use assume_rolers::shell::{file_name_of, path_extension, Shell};

#[test]
fn known_families_are_read_off_paths() {
    assert_eq!(Shell::from_process_path("/bin/bash"), Some(Shell::Bash));
    assert_eq!(Shell::from_process_path("/usr/bin/zsh"), Some(Shell::Zsh));
    assert_eq!(Shell::from_process_path("fish"), Some(Shell::Fish));
}

#[test]
fn unrecognized_families_are_carried_verbatim() {
    assert_eq!(
        Shell::from_process_path("/bin/dash"),
        Some(Shell::Unknown("dash".to_string()))
    );
}

#[test]
fn the_stem_decides_not_the_suffix() {
    assert_eq!(Shell::from_process_path("/opt/bash.exe"), Some(Shell::Bash));
    assert_eq!(Shell::from_process_path("/bin/bash/"), Some(Shell::Bash));
}

#[test]
fn a_path_without_a_file_name_gives_no_hint() {
    assert_eq!(Shell::from_process_path(""), None);
    assert_eq!(Shell::from_process_path("/"), None);
    assert_eq!(Shell::from_process_path("///"), None);
}

#[test]
fn file_names_and_extensions() {
    assert_eq!(file_name_of("/a/b/plugin.wasm"), Some("plugin.wasm".to_string()));
    assert_eq!(file_name_of("plugin.wasm"), Some("plugin.wasm".to_string()));
    assert_eq!(file_name_of("/"), None);
    assert_eq!(path_extension("/a/b/plugin.wasm"), Some("wasm".to_string()));
    assert_eq!(path_extension("archive.tar.gz"), Some("gz".to_string()));
    assert_eq!(path_extension("/a/b/noext"), None);
    assert_eq!(path_extension(".hidden"), None);
}
