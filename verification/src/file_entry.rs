//! A file of the source tree selected for stowing.
use vstd::prelude::*;

verus! {

/// A file of the source tree, where it goes, and whether its variables are interpolated.
pub struct FileEntry {
    pub source_path: String,
    pub relative_path: String,
    pub target_path: String,
    pub should_interpolate: bool,
}

/// The text of a file entry.
pub struct FileEntryView {
    pub source_path: Seq<char>,
    pub relative_path: Seq<char>,
    pub target_path: Seq<char>,
    pub should_interpolate: bool,
}

impl View for FileEntry {
    type V = FileEntryView;

    open spec fn view(&self) -> FileEntryView {
        FileEntryView {
            source_path: self.source_path@,
            relative_path: self.relative_path@,
            target_path: self.target_path@,
            should_interpolate: self.should_interpolate,
        }
    }
}

/// The views of a list of entries.
pub open spec fn entries_view(files: Seq<FileEntry>) -> Seq<FileEntryView> {
    files.map_values(|f: FileEntry| f@)
}

} // verus!
