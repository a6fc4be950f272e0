//! What the application's commands compute before and after they touch the
//! disk.

use vstd::prelude::*;
use vstd::string::StringExecFns;
use crate::text::string_views;
use crate::xml::generator::{SourceFile, SourceFileView, source_views};

verus! {

/// How a directory is to be scanned.
#[derive(Debug, PartialEq, Eq)]
pub struct DirectoryScanOptions {
    pub use_git_ignore: bool,
    pub include_patterns: Option<Vec<String>>,
    pub exclude_patterns: Option<Vec<String>>,
}

/// Whether a scan heeds the ignore files: it does, unless the options say
/// otherwise.
pub fn scan_uses_git_ignore(options: Option<&DirectoryScanOptions>) -> (r: bool)
    ensures
        r == match options {
            Some(o) => o.use_git_ignore,
            None => true,
        },
{
    match options {
        Some(o) => o.use_git_ignore,
        None => true,
    }
}

/// A file as it stands in copied text: its path, then its text in a code
/// fence.
pub open spec fn copied_file(file: SourceFileView) -> Seq<char> {
    "File: "@ + file.path + "\n```\n"@ + file.content + "\n```\n\n"@
}

/// The files of `files` as they stand in copied text, one after the other.
pub open spec fn copied_files(files: Seq<SourceFileView>) -> Seq<char>
    decreases files.len(),
{
    if files.len() == 0 {
        Seq::empty()
    } else {
        copied_files(files.drop_last()) + copied_file(files.last())
    }
}

/// Each prompt of `prompts` followed by an empty line.
pub open spec fn copied_prompts(prompts: Seq<Seq<char>>) -> Seq<char>
    decreases prompts.len(),
{
    if prompts.len() == 0 {
        Seq::empty()
    } else {
        copied_prompts(prompts.drop_last()) + prompts.last() + "\n\n"@
    }
}

/// The text to copy: the files, then, where there are prompts, a heading
/// and the prompts.
pub open spec fn copy_content(files: Seq<SourceFileView>, prompts: Seq<Seq<char>>) -> Seq<char> {
    if prompts.len() == 0 {
        copied_files(files)
    } else {
        copied_files(files) + "===== Prompts =====\n\n"@ + copied_prompts(prompts)
    }
}

/// The text to copy for the files `files`, which have been read, and the
/// prompts `prompts`.
pub fn generate_copy_content(files: &[SourceFile], prompts: &[String]) -> (content: String)
    ensures
        content@ == copy_content(source_views(files@), string_views(prompts@)),
{
    let mut content = String::new();
    let mut i: usize = 0;
    assert(source_views(files@).take(0) =~= Seq::empty());
    while i < files.len()
        invariant
            i <= files.len(),
            content@ == copied_files(source_views(files@).take(i as int)),
        decreases files.len() - i,
    {
        proof {
            let all = source_views(files@);
            assert(all.take(i + 1).drop_last() =~= all.take(i as int));
            assert(all.take(i + 1).last() == files@[i as int]@);
        }
        let ghost before = content@;
        content.append("File: ");
        content.append(files[i].path.as_str());
        content.append("\n```\n");
        content.append(files[i].content.as_str());
        content.append("\n```\n\n");
        assert(content@ =~= before + copied_file(files@[i as int]@));
        i += 1;
    }
    assert(source_views(files@).take(i as int) =~= source_views(files@));
    if prompts.len() > 0 {
        content.append("===== Prompts =====\n\n");
        let ghost head = content@;
        let mut k: usize = 0;
        assert(string_views(prompts@).take(0) =~= Seq::empty());
        assert(content@ =~= head + copied_prompts(string_views(prompts@).take(0)));
        while k < prompts.len()
            invariant
                k <= prompts.len(),
                content@ == head + copied_prompts(string_views(prompts@).take(k as int)),
            decreases prompts.len() - k,
        {
            proof {
                let all = string_views(prompts@);
                assert(all.take(k + 1).drop_last() =~= all.take(k as int));
                assert(all.take(k + 1).last() == prompts@[k as int]@);
            }
            content.append(prompts[k].as_str());
            content.append("\n\n");
            assert(content@ =~= head + copied_prompts(string_views(prompts@).take(k + 1)));
            k += 1;
        }
        assert(string_views(prompts@).take(k as int) =~= string_views(prompts@));
    }
    content
}

} // verus!
