use crate::text::{find_last_char, last_index, lemma_last_index, same_text, text_of};
use crate::unicode::{lowercase_of, to_lowercase};
use vstd::prelude::*;

verus! {

/// The extension of a file name: what follows its last dot. A name without
/// a dot has none, nor has one whose only dot is its first character, nor
/// has the name `..`. A name that ends in a dot has the empty extension.
pub open spec fn extension_of(file_name: Seq<char>) -> Option<Seq<char>> {
    let dot = last_index(file_name, '.');
    if dot <= 0 || file_name == ".."@ {
        None
    } else {
        Some(file_name.skip(dot + 1))
    }
}

/// The directory for the files of one extension: a child of the root, named
/// by the extension in lower case.
pub open spec fn target_dir_of(root: Seq<char>, lower_extension: Seq<char>) -> Seq<char> {
    root + "/"@ + lower_extension
}

/// The path of a file in a directory: the two joined by one slash, which is
/// left out where the directory is empty or ends in a slash already.
pub open spec fn path_in(directory: Seq<char>, file_name: Seq<char>) -> Seq<char> {
    if directory.len() > 0 && directory.last() != '/' {
        directory + "/"@ + file_name
    } else {
        directory + file_name
    }
}

/// Where a file is to go: the directory that has to exist first, and the
/// path that the file gets in it.
#[derive(Debug, PartialEq, Eq)]
pub struct Relocation {
    pub target_dir: String,
    pub target_path: String,
}

/// A relocation as a plain value.
pub struct RelocationView {
    pub target_dir: Seq<char>,
    pub target_path: Seq<char>,
}

impl View for Relocation {
    type V = RelocationView;

    open spec fn view(&self) -> RelocationView {
        RelocationView { target_dir: self.target_dir@, target_path: self.target_path@ }
    }
}

/// The relocation of a file, given its extension in lower case: the file
/// keeps its name, in the directory of its extension.
pub open spec fn relocation_of(
    root: Seq<char>,
    lower_extension: Seq<char>,
    file_name: Seq<char>,
) -> RelocationView {
    RelocationView {
        target_dir: target_dir_of(root, lower_extension),
        target_path: path_in(target_dir_of(root, lower_extension), file_name),
    }
}

/// What is to be done with an entry of the tree: a regular file whose name
/// has an extension is moved, anything else stays where it is.
pub open spec fn plan_of(root: Seq<char>, file_name: Seq<char>, is_file: bool) -> Option<
    RelocationView,
> {
    match extension_of(file_name) {
        Some(found) => if is_file {
            Some(relocation_of(root, lowercase_of(found), file_name))
        } else {
            None
        },
        None => None,
    }
}

/// A plan as a plain value.
pub open spec fn plan_view(plan: Option<Relocation>) -> Option<RelocationView> {
    match plan {
        Some(relocation) => Some(relocation@),
        None => None,
    }
}

/// Finds the extension of a file name.
pub fn extension(file_name: &str) -> (found: Option<&str>)
    ensures
        text_of(found) == extension_of(file_name@),
{
    let total = file_name.unicode_len();
    proof {
        lemma_last_index(file_name@, '.');
    }
    match find_last_char(file_name, '.') {
        Some(dot) if dot > 0 && !same_text(file_name, "..") => {
            Some(file_name.substring_char(dot + 1, total))
        },
        _ => None,
    }
}

/// Says where a file goes, given its extension in lower case.
pub fn relocation(root: &str, lower_extension: &str, file_name: &str) -> (plan: Relocation)
    ensures
        plan@ == relocation_of(root@, lower_extension@, file_name@),
{
    let mut target_dir = String::from_str(root);
    target_dir.append("/");
    target_dir.append(lower_extension);
    let length = target_dir.as_str().unicode_len();
    let mut target_path = target_dir.clone();
    if length > 0 && target_dir.as_str().get_char(length - 1) != '/' {
        target_path.append("/");
    }
    target_path.append(file_name);
    Relocation { target_dir, target_path }
}

/// Decides what is to be done with one entry of the tree under `root`,
/// given its file name and whether it is a regular file.
pub fn plan_entry(root: &str, file_name: &str, is_file: bool) -> (plan: Option<Relocation>)
    ensures
        plan_view(plan) == plan_of(root@, file_name@, is_file),
{
    if !is_file {
        return None;
    }
    match extension(file_name) {
        Some(found) => {
            let lower = to_lowercase(found);
            Some(relocation(root, lower.as_str(), file_name))
        },
        None => None,
    }
}

/// What can go wrong while the tree is put in order.
#[derive(Debug, Clone, Copy, PartialEq, Eq, Structural)]
pub enum Failure {
    /// An entry of the tree could not be read.
    Traversal,
    /// The directory for an extension could not be made.
    CreateDirectory,
    /// A file could not be moved.
    Move,
}

/// Tells whether a failure ends the walk. Only a directory that cannot be
/// made does; an entry that cannot be read or a file that cannot be moved
/// is passed over.
pub fn stops_walk(failure: Failure) -> (stop: bool)
    ensures
        stop == (failure == Failure::CreateDirectory),
{
    match failure {
        Failure::CreateDirectory => true,
        Failure::Traversal => false,
        Failure::Move => false,
    }
}

} // verus!
