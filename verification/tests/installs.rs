use rust_install::errors::Error;
use rust_install::install::{Action, Cause, Event, Installation, Phase, Source};
use rust_install::package::{DirectoryPackage, Package};

fn at(component: &str, path: &str) -> Source {
    Source { root: "/pkg".to_string(), component: component.to_string(), path: path.to_string() }
}

fn rustc_run() -> Installation {
    let package = DirectoryPackage::new("/pkg".to_string(), Some("rustc\nrust-std")).unwrap();
    assert!(package.contains("rustc", None));
    assert!(!package.contains("cargo", None));
    package.install("rustc", None)
}

fn corrupt(name: &str) -> Action {
    Action::Failed(Error::CorruptComponent(name.to_string()))
}

#[test]
fn installs_a_file_and_a_directory_then_commits() {
    let mut run = rustc_run();
    assert_eq!(run.phase(), Phase::ReadingManifest);
    assert_eq!(run.pending(), Action::ReadManifest(at("rustc", "manifest.in")));
    let text = "file:bin/rustc\ndir:lib/rustlib".to_string();
    assert_eq!(run.step(Event::ManifestRead(text)), Action::OpenBuilder("rustc".to_string()));
    assert_eq!(run.phase(), Phase::OpeningBuilder);
    assert_eq!(run.step(Event::BuilderOpened), Action::CopyFile(at("rustc", "bin/rustc")));
    assert_eq!(run.phase(), Phase::Staging);
    assert_eq!(run.step(Event::Copied), Action::CopyDir(at("rustc", "lib/rustlib")));
    assert_eq!(run.step(Event::Copied), Action::Finish);
    assert_eq!(run.phase(), Phase::Committing);
    assert_eq!(run.step(Event::Finished), Action::Installed);
    assert_eq!(run.phase(), Phase::Done);
}

#[test]
fn a_bogus_kind_corrupts_the_component() {
    let mut run = rustc_run();
    run.step(Event::ManifestRead("bogus:bin/rustc".to_string()));
    assert_eq!(run.step(Event::BuilderOpened), corrupt("rustc"));
    assert_eq!(run.phase(), Phase::Aborted(Cause::Corrupt));
    assert_eq!(run.step(Event::Copied), corrupt("rustc"));
    assert_eq!(run.step(Event::Finished), corrupt("rustc"));
    assert_eq!(run.phase(), Phase::Aborted(Cause::Corrupt));
}

#[test]
fn a_bad_line_is_found_when_its_turn_comes() {
    for bad in ["bogus:lib", "lib/rustlib", "dir:", ""] {
        let mut run = rustc_run();
        run.step(Event::ManifestRead(format!("file:bin/rustc\n{}\nfile:bin/rustdoc", bad)));
        assert_eq!(run.step(Event::BuilderOpened), Action::CopyFile(at("rustc", "bin/rustc")));
        assert_eq!(run.step(Event::Copied), corrupt("rustc"), "line {:?}", bad);
        assert_eq!(run.step(Event::Copied), corrupt("rustc"));
        assert_eq!(run.pending(), corrupt("rustc"));
    }
}

#[test]
fn a_failed_copy_comes_before_a_later_bad_line() {
    let mut run = rustc_run();
    run.step(Event::ManifestRead("file:bin/rustc\nbogus".to_string()));
    run.step(Event::BuilderOpened);
    assert_eq!(run.step(Event::CopyFailed), Action::Failed(Error::Staging));
}

#[test]
fn an_unreadable_manifest_corrupts_the_component() {
    let mut run = rustc_run();
    assert_eq!(run.step(Event::ManifestUnreadable), corrupt("rustc"));
    assert_eq!(run.step(Event::ManifestRead("file:a".to_string())), corrupt("rustc"));
    assert_eq!(run.step(Event::BuilderOpened), corrupt("rustc"));
}

#[test]
fn the_error_carries_the_name_asked_for() {
    let package = DirectoryPackage::new("/pkg".to_string(), Some("rust-std")).unwrap();
    let mut run = package.install("rust-std-x86_64", Some("rust-std"));
    assert_eq!(run.pending(), Action::ReadManifest(at("rust-std", "manifest.in")));
    run.step(Event::ManifestRead("dir:lib\nnonsense".to_string()));
    assert_eq!(run.step(Event::BuilderOpened), Action::CopyDir(at("rust-std", "lib")));
    assert_eq!(run.step(Event::Copied), corrupt("rust-std-x86_64"));
}

#[test]
fn a_failed_copy_aborts_for_good() {
    let mut run = rustc_run();
    run.step(Event::ManifestRead("file:bin/rustc\ndir:lib/rustlib".to_string()));
    run.step(Event::BuilderOpened);
    assert_eq!(run.step(Event::Copied), Action::CopyDir(at("rustc", "lib/rustlib")));
    assert_eq!(run.step(Event::CopyFailed), Action::Failed(Error::Staging));
    assert_eq!(run.phase(), Phase::Aborted(Cause::Builder));
    assert_eq!(run.step(Event::Copied), Action::Failed(Error::Staging));
    assert_eq!(run.step(Event::Finished), Action::Failed(Error::Staging));
    assert_eq!(run.pending(), Action::Failed(Error::Staging));
}

#[test]
fn a_failed_commit_aborts() {
    let mut run = rustc_run();
    run.step(Event::ManifestRead("file:bin/rustc".to_string()));
    run.step(Event::BuilderOpened);
    assert_eq!(run.step(Event::Copied), Action::Finish);
    assert_eq!(run.step(Event::FinishFailed), Action::Failed(Error::Staging));
    assert_eq!(run.step(Event::Finished), Action::Failed(Error::Staging));
}

#[test]
fn an_empty_manifest_commits_at_once() {
    let mut run = rustc_run();
    assert_eq!(
        run.step(Event::ManifestRead(String::new())),
        Action::OpenBuilder("rustc".to_string())
    );
    assert_eq!(run.step(Event::BuilderOpened), Action::Finish);
    assert_eq!(run.step(Event::Finished), Action::Installed);
}

#[test]
fn events_out_of_turn_change_nothing() {
    let mut run = rustc_run();
    assert_eq!(run.step(Event::BuilderOpened), Action::ReadManifest(at("rustc", "manifest.in")));
    assert_eq!(run.step(Event::Copied), Action::ReadManifest(at("rustc", "manifest.in")));
    assert_eq!(run.step(Event::Finished), Action::ReadManifest(at("rustc", "manifest.in")));
    run.step(Event::ManifestRead("file:a\nfile:b".to_string()));
    assert_eq!(run.step(Event::Copied), Action::OpenBuilder("rustc".to_string()));
    assert_eq!(run.step(Event::Finished), Action::OpenBuilder("rustc".to_string()));
    assert_eq!(run.step(Event::BuilderOpened), Action::CopyFile(at("rustc", "a")));
    assert_eq!(run.step(Event::BuilderOpened), Action::CopyFile(at("rustc", "a")));
    assert_eq!(run.step(Event::Finished), Action::CopyFile(at("rustc", "a")));
    assert_eq!(run.step(Event::ManifestRead("dir:c".to_string())), Action::CopyFile(at("rustc", "a")));
    assert_eq!(run.step(Event::Copied), Action::CopyFile(at("rustc", "b")));
    assert_eq!(run.step(Event::Copied), Action::Finish);
    assert_eq!(run.step(Event::Copied), Action::Finish);
    assert_eq!(run.step(Event::CopyFailed), Action::Finish);
    assert_eq!(run.step(Event::Finished), Action::Installed);
    assert_eq!(run.step(Event::FinishFailed), Action::Installed);
    assert_eq!(run.step(Event::CopyFailed), Action::Installed);
}

#[test]
fn manifest_lines_may_end_in_carriage_returns() {
    let mut run = rustc_run();
    run.step(Event::ManifestRead("file:bin/rustc\r\ndir:lib\r\n".to_string()));
    assert_eq!(run.step(Event::BuilderOpened), Action::CopyFile(at("rustc", "bin/rustc")));
    assert_eq!(run.step(Event::Copied), Action::CopyDir(at("rustc", "lib")));
    assert_eq!(run.step(Event::Copied), Action::Finish);
}

#[test]
fn an_install_can_be_begun_by_hand() {
    let run = Installation::new("/pkg".to_string(), "cargo".to_string(), "cargo-dir".to_string());
    assert_eq!(run.phase(), Phase::ReadingManifest);
    assert_eq!(run.pending(), Action::ReadManifest(at("cargo-dir", "manifest.in")));
}

#[test]
fn a_path_named_twice_is_staged_twice() {
    let mut run = rustc_run();
    run.step(Event::ManifestRead("file:bin/rustc\nfile:bin/rustc\n".to_string()));
    assert_eq!(run.step(Event::BuilderOpened), Action::CopyFile(at("rustc", "bin/rustc")));
    assert_eq!(run.step(Event::Copied), Action::CopyFile(at("rustc", "bin/rustc")));
    assert_eq!(run.step(Event::Copied), Action::Finish);
}
