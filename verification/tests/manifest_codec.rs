use rust_install::manifest::{ComponentKind, ComponentPart};
use rust_install::text::{chars_of, split_lines};

fn part(kind: ComponentKind, path: &str) -> ComponentPart {
    ComponentPart { kind, path: path.to_string() }
}

#[test]
fn decodes_a_file_entry() {
    assert_eq!(
        ComponentPart::decode("file:bin/rustc"),
        Some(part(ComponentKind::File, "bin/rustc"))
    );
}

#[test]
fn decodes_a_directory_entry() {
    assert_eq!(
        ComponentPart::decode("dir:lib/rustlib"),
        Some(part(ComponentKind::Dir, "lib/rustlib"))
    );
}

#[test]
fn rejects_an_unknown_kind() {
    assert_eq!(ComponentPart::decode("bogus:bin/rustc"), None);
    assert_eq!(ComponentPart::decode("File:bin/rustc"), None);
    assert_eq!(ComponentPart::decode("files:bin/rustc"), None);
    assert_eq!(ComponentPart::decode("fil:bin/rustc"), None);
    assert_eq!(ComponentPart::decode("di:lib"), None);
    assert_eq!(ComponentPart::decode(" dir:lib"), None);
    assert_eq!(ComponentPart::decode(":bin/rustc"), None);
}

#[test]
fn rejects_a_line_without_separator() {
    assert_eq!(ComponentPart::decode("file"), None);
    assert_eq!(ComponentPart::decode("filebin/rustc"), None);
    assert_eq!(ComponentPart::decode(""), None);
}

#[test]
fn rejects_an_empty_path() {
    assert_eq!(ComponentPart::decode("file:"), None);
    assert_eq!(ComponentPart::decode("dir:"), None);
}

#[test]
fn splits_at_the_first_separator_only() {
    assert_eq!(ComponentPart::decode("file:a:b"), Some(part(ComponentKind::File, "a:b")));
    assert_eq!(ComponentPart::decode("dir::"), Some(part(ComponentKind::Dir, ":")));
}

#[test]
fn keeps_paths_that_are_not_ascii() {
    assert_eq!(
        ComponentPart::decode("file:share/doc/lisez-moi-é.txt"),
        Some(part(ComponentKind::File, "share/doc/lisez-moi-é.txt"))
    );
}

#[test]
fn encodes_both_kinds() {
    assert_eq!(part(ComponentKind::File, "bin/rustc").encode(), "file:bin/rustc");
    assert_eq!(part(ComponentKind::Dir, "lib/rustlib").encode(), "dir:lib/rustlib");
}

#[test]
fn decoding_an_encoded_entry_gives_it_back() {
    for kind in [ComponentKind::File, ComponentKind::Dir] {
        for path in ["a", "bin/rustc", "lib/rustlib/x86_64/lib", "with space", "a:b", "é/ü"] {
            let entry = part(kind, path);
            assert_eq!(ComponentPart::decode(&entry.encode()), Some(entry));
        }
    }
}

#[test]
fn encoding_a_decoded_line_gives_it_back() {
    for line in ["file:bin/rustc", "dir:lib", "file:a:b", "dir: x "] {
        let entry = ComponentPart::decode(line).unwrap();
        assert_eq!(entry.encode(), line);
    }
}

#[test]
fn an_entry_with_an_empty_path_does_not_come_back() {
    let line = part(ComponentKind::File, "").encode();
    assert_eq!(line, "file:");
    assert_eq!(ComponentPart::decode(&line), None);
}

#[test]
fn splits_text_into_lines() {
    assert_eq!(split_lines("rustc\nrust-std"), vec!["rustc".to_string(), "rust-std".to_string()]);
    assert_eq!(split_lines("rustc\nrust-std\n"), vec!["rustc".to_string(), "rust-std".to_string()]);
    assert_eq!(split_lines(""), Vec::<String>::new());
    assert_eq!(split_lines("\n"), vec!["".to_string()]);
    assert_eq!(split_lines("a\n\nb"), vec!["a".to_string(), "".to_string(), "b".to_string()]);
}

#[test]
fn line_ends_may_carry_a_carriage_return() {
    assert_eq!(
        split_lines("foo\r\nbar\n\nbaz\r"),
        vec!["foo".to_string(), "bar".to_string(), "".to_string(), "baz\r".to_string()]
    );
    assert_eq!(split_lines("a\r\r\nb"), vec!["a\r".to_string(), "b".to_string()]);
    assert_eq!(split_lines("\r\n"), vec!["".to_string()]);
}

#[test]
fn lines_agree_with_the_standard_library() {
    for text in ["", "a", "a\n", "\n\n", "a\r\nb\r\n", "x\ry\n", "é\nü\r\n\r", "\r", "a\n\rb"] {
        let expected: Vec<String> = text.lines().map(|l| l.to_string()).collect();
        assert_eq!(split_lines(text), expected, "text {:?}", text);
    }
}

#[test]
fn a_text_gives_its_characters_in_order() {
    assert_eq!(chars_of("dir:é/x"), vec!['d', 'i', 'r', ':', 'é', '/', 'x']);
    assert_eq!(chars_of(""), Vec::<char>::new());
}
