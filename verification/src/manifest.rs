//! The manifest codec. A manifest holds one entry per line: a kind, a colon
//! and a path, as in `file:bin/rustc` or `dir:lib/rustlib`.

use vstd::prelude::*;
use vstd::string::StringExecFns;
use crate::text::{chars_of, first_index, lemma_first_index, lemma_first_index_is, string_of};

verus! {

/// What a manifest entry asks to be copied.
#[derive(Clone, Copy, Debug, PartialEq, Eq, Structural)]
pub enum ComponentKind {
    /// A single file.
    File,
    /// A directory with everything below it.
    Dir,
}

impl ComponentKind {
    /// The word that stands for this kind in a manifest line.
    pub open spec fn tag(self) -> Seq<char> {
        match self {
            ComponentKind::File => seq!['f', 'i', 'l', 'e'],
            ComponentKind::Dir => seq!['d', 'i', 'r'],
        }
    }
}

/// One entry of a manifest: a kind and a path relative to the component.
#[derive(Clone, Debug, PartialEq, Eq)]
pub struct ComponentPart {
    pub kind: ComponentKind,
    pub path: String,
}

/// A `ComponentPart` with its path as a sequence of characters.
pub struct PartView {
    pub kind: ComponentKind,
    pub path: Seq<char>,
}

impl View for ComponentPart {
    type V = PartView;

    open spec fn view(&self) -> PartView {
        PartView { kind: self.kind, path: self.path@ }
    }
}

/// The line that stands for `part`: the kind's tag, a colon, the path.
pub open spec fn encoded(part: PartView) -> Seq<char> {
    part.kind.tag() + seq![':'] + part.path
}

/// The entry that `line` stands for, if it is one. The first colon parts the
/// tag from the path; the tag must be `file` or `dir` and the path not empty.
pub open spec fn decoded(line: Seq<char>) -> Option<PartView> {
    let at = first_index(line, ':');
    if 0 <= at < line.len() && at + 1 < line.len() {
        let tag = line.take(at);
        let path = line.skip(at + 1);
        if tag == ComponentKind::File.tag() {
            Some(PartView { kind: ComponentKind::File, path })
        } else if tag == ComponentKind::Dir.tag() {
            Some(PartView { kind: ComponentKind::Dir, path })
        } else {
            None
        }
    } else {
        None
    }
}

/// Whether `part` can stand in a manifest: its path is not empty.
pub open spec fn valid_part(part: PartView) -> bool {
    part.path.len() > 0
}

impl ComponentPart {
    /// Reads one manifest line.
    pub fn decode(line: &str) -> (part: Option<ComponentPart>)
        ensures
            match decoded(line@) {
                Some(p) => part is Some && part->0@ == p,
                None => part is None,
            },
    {
        let chars = chars_of(line);
        let n = chars.len();
        let mut at: usize = 0;
        while at < n && chars[at] != ':'
            invariant
                n == chars@.len(),
                at <= n,
                forall|j: int| 0 <= j < at ==> chars@[j] != ':',
            decreases n - at,
        {
            at = at + 1;
        }
        proof {
            lemma_first_index_is(chars@, ':', at as int);
        }
        if at >= n || n - at < 2 {
            return None;
        }
        let ghost tag = chars@.take(at as int);
        let is_file = at == 4 && chars[0] == 'f' && chars[1] == 'i' && chars[2] == 'l' && chars[3]
            == 'e';
        let is_dir = at == 3 && chars[0] == 'd' && chars[1] == 'i' && chars[2] == 'r';
        proof {
            if is_file {
                assert(tag =~= ComponentKind::File.tag());
            } else {
                assert(tag != ComponentKind::File.tag()) by {
                    if tag == ComponentKind::File.tag() {
                        assert(tag.len() == 4);
                        assert(tag[0] == 'f' && tag[1] == 'i' && tag[2] == 'l' && tag[3] == 'e');
                    }
                }
            }
            if is_dir {
                assert(tag =~= ComponentKind::Dir.tag());
            } else {
                assert(tag != ComponentKind::Dir.tag()) by {
                    if tag == ComponentKind::Dir.tag() {
                        assert(tag.len() == 3);
                        assert(tag[0] == 'd' && tag[1] == 'i' && tag[2] == 'r');
                    }
                }
            }
        }
        if !is_file && !is_dir {
            return None;
        }
        let path = string_of(chars.as_slice(), at + 1, n);
        assert(path@ =~= line@.skip(at + 1));
        let kind = if is_file {
            ComponentKind::File
        } else {
            ComponentKind::Dir
        };
        Some(ComponentPart { kind, path })
    }

    /// Writes the entry as one manifest line.
    pub fn encode(&self) -> (line: String)
        ensures
            line@ == encoded(self@),
    {
        let mut line = match self.kind {
            ComponentKind::File => {
                proof {
                    reveal_strlit("file");
                }
                let tag = String::from_str("file");
                assert(tag@ =~= ComponentKind::File.tag());
                tag
            },
            ComponentKind::Dir => {
                proof {
                    reveal_strlit("dir");
                }
                let tag = String::from_str("dir");
                assert(tag@ =~= ComponentKind::Dir.tag());
                tag
            },
        };
        line.push(':');
        line.append(self.path.as_str());
        assert(line@ =~= encoded(self@));
        line
    }
}

/// Decoding the line written for an entry gives the entry back, whatever its
/// kind, for every path that is not empty.
pub proof fn lemma_decode_encoded(part: PartView)
    requires
        valid_part(part),
    ensures
        decoded(encoded(part)) == Some(part),
{
    let line = encoded(part);
    let tag = part.kind.tag();
    assert forall|j: int| 0 <= j < tag.len() implies line[j] != ':' by {
        assert(line[j] == tag[j]);
    }
    assert(line[tag.len() as int] == ':');
    lemma_first_index_is(line, ':', tag.len() as int);
    assert(line.take(tag.len() as int) =~= tag);
    assert(line.skip(tag.len() as int + 1) =~= part.path);
    assert(ComponentKind::File.tag() != ComponentKind::Dir.tag()) by {
        assert(ComponentKind::File.tag().len() == 4);
        assert(ComponentKind::Dir.tag().len() == 3);
    }
}

/// A line that decodes is the line written for its entry, and that entry's
/// path is not empty.
pub proof fn lemma_encode_decoded(line: Seq<char>)
    requires
        decoded(line) is Some,
    ensures
        encoded(decoded(line)->0) == line,
        valid_part(decoded(line)->0),
{
    lemma_first_index(line, ':');
    let at = first_index(line, ':');
    let part = decoded(line)->0;
    assert(line.take(at) + seq![':'] + line.skip(at + 1) =~= line);
}

} // verus!
