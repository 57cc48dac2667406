use jutsu_audio::paths::{
    autosave_path, default_library, join, lock_file_path, path_to_portable_string,
    previous_autosave_path, session_file_path, sidecar_path,
};
use jutsu_audio::store::ProjectFileErrorCode;

fn file_name(path: &str) -> &str {
    path.rsplit('/').next().unwrap_or(path)
}

#[test]
fn autosave_the_sidecar_sits_beside_the_project_and_keeps_its_whole_name() {
    let path = autosave_path("/projects/song.jutsu-audio.json");
    assert_eq!(file_name(&path), "song.jutsu-audio.json.autosave");
}

#[test]
fn discovery_the_sidecar_sits_beside_the_project_and_keeps_its_whole_name() {
    let path = session_file_path("/projects/song.jutsu-audio.json");
    assert_eq!(file_name(&path), "song.jutsu-audio.json.session");
}

#[test]
fn every_sidecar_stays_in_the_project_directory() {
    assert_eq!(
        previous_autosave_path("/projects/song.jutsu-audio.json"),
        "/projects/song.jutsu-audio.json.autosave.1"
    );
    assert_eq!(lock_file_path("song.json"), "song.json.lock");
    assert_eq!(sidecar_path("a/..", ".lock"), "a/project.lock");
}

#[test]
fn a_trailing_slash_names_the_last_component_as_the_file() {
    assert_eq!(lock_file_path("a/b/"), "a/b.lock");
    assert_eq!(lock_file_path("a/b/./"), "a/b.lock");
    assert_eq!(autosave_path("/b/"), "/b.autosave");
    assert_eq!(lock_file_path("/"), "./project.lock");
    assert_eq!(lock_file_path(""), "./project.lock");
    assert_eq!(lock_file_path("."), "project.lock");
    assert_eq!(default_library("a/b/"), "a/presets");
    assert_eq!(default_library("/"), "./presets");
    assert_eq!(
        jutsu_audio::assets::AssetManager::waveform_cache_path("a/b/", "f"),
        "a/.jutsu-audio-cache/waveforms/f.json"
    );
    assert_eq!(jutsu_audio::paths::backup_path_candidate("a/b/", 0, 2), "a/b.v0.bak.2");
    assert_eq!(jutsu_audio::paths::backup_path_candidate("a/..", 0, 0), "a/../project.v0.bak");
    assert_eq!(jutsu_audio::paths::file_name_of("a/b.wav/."), "b.wav");
    assert_eq!(jutsu_audio::paths::parent_or_dot_of("a//b"), "a");
}

#[test]
fn presets_default_to_a_directory_beside_the_project() {
    assert_eq!(default_library("/projects/song.json"), "/projects/presets");
    assert_eq!(default_library("song.json"), "presets");
}

#[test]
fn joining_puts_one_slash_between() {
    assert_eq!(join("/a", "b"), "/a/b");
    assert_eq!(join("/a/", "b"), "/a/b");
    assert_eq!(join("", "b"), "b");
    assert_eq!(join("/a", "/b"), "/b");
}

#[test]
fn a_portable_path_keeps_only_its_names() {
    assert_eq!(path_to_portable_string("assets/x.wav", "p").unwrap(), "assets/x.wav");
    assert_eq!(path_to_portable_string("a//b/./c/", "p").unwrap(), "a/b/c");
    let rooted = path_to_portable_string("/etc/x.wav", "song.json").unwrap_err();
    assert_eq!(rooted.code, ProjectFileErrorCode::InvalidAssetPath);
    assert_eq!(rooted.path, "song.json");
    assert_eq!(rooted.message, "asset path must be project-relative UTF-8");
    assert_eq!(
        path_to_portable_string("a/../b", "p").unwrap_err().message,
        "asset path must be project-relative UTF-8"
    );
    assert_eq!(
        path_to_portable_string("./a", "p").unwrap_err().message,
        "asset path must be project-relative UTF-8"
    );
    assert_eq!(
        path_to_portable_string("", "p").unwrap_err().message,
        "asset path must not be empty"
    );
    assert_eq!(
        path_to_portable_string("a/.", "p").unwrap(),
        "a"
    );
}
