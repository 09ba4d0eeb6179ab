//! The apps that the search popup offers: the shortcuts of the Start Menu.

use vstd::prelude::*;

use crate::text::chars_of;

verus! {

/// An app that can be launched.
#[derive(Debug)]
pub struct App {
    /// The name to show.
    pub name: String,
    /// The path of its shortcut.
    pub path: String,
}

/// The file is a shortcut: behind at least one character, its name ends in
/// `.lnk`, in upper or lower case.
pub open spec fn is_shortcut(file_name: Seq<char>) -> bool {
    let end = file_name.len() as int;
    &&& end > 4
    &&& file_name[end - 4] == '.'
    &&& file_name[end - 3] == 'l' || file_name[end - 3] == 'L'
    &&& file_name[end - 2] == 'n' || file_name[end - 2] == 'N'
    &&& file_name[end - 1] == 'k' || file_name[end - 1] == 'K'
}

/// The name of the app behind a shortcut: the file name without `.lnk`.
pub open spec fn shortcut_app_name(file_name: Seq<char>) -> Seq<char> {
    file_name.take(file_name.len() - 4)
}

/// Which app does a file stand for, if it is a shortcut?
pub fn shortcut_name(file_name: &str) -> (name: Option<String>)
    ensures
        name is Some <==> is_shortcut(file_name@),
        name matches Some(text) ==> text@ == shortcut_app_name(file_name@),
{
    let chars = chars_of(file_name);
    let end: usize = chars.len();
    if end > 4 && chars[end - 4] == '.' && (chars[end - 3] == 'l' || chars[end - 3] == 'L') && (
    chars[end - 2] == 'n' || chars[end - 2] == 'N') && (chars[end - 1] == 'k' || chars[end - 1]
        == 'K') {
        Some(file_name.substring_char(0, end - 4).to_string())
    } else {
        None
    }
}

/// What to do with an entry of a folder.
pub enum Visit {
    /// Look through it, too.
    Descend,
    /// Add the app.
    Add(App),
    /// Pass it over.
    Skip,
}

/// Decides on an entry of a folder of shortcuts. The file name is missing if it
/// is not valid Unicode.
pub fn visit_entry(is_folder: bool, file_name: Option<&str>, path: &str) -> (visit: Visit)
    ensures
        visit is Descend <==> is_folder,
        visit is Add <==> !is_folder && file_name is Some && is_shortcut(file_name->0@),
        visit matches Visit::Add(app) ==> {
            &&& app.name@ == shortcut_app_name(file_name->0@)
            &&& app.path@ == path@
        },
{
    if is_folder {
        return Visit::Descend;
    }
    match file_name {
        Some(file_name) => match shortcut_name(file_name) {
            Some(name) => Visit::Add(App { name, path: path.to_string() }),
            None => Visit::Skip,
        },
        None => Visit::Skip,
    }
}

} // verus!
