//! The text that asks for a document of edits.

use vstd::prelude::*;
use vstd::string::StringExecFns;
use crate::text::{same_text, string_views};

verus! {

/// Each path of `paths` followed by a line feed.
pub open spec fn file_tree(paths: Seq<Seq<char>>) -> Seq<char>
    decreases paths.len(),
{
    if paths.len() == 0 {
        Seq::empty()
    } else {
        file_tree(paths.drop_last()) + paths.last() + seq!['\n']
    }
}

/// The list of the files: each path on a line of its own.
pub fn generate_file_tree(file_paths: &[String]) -> (tree: String)
    ensures
        tree@ == file_tree(string_views(file_paths@)),
{
    let mut tree = String::new();
    let mut i: usize = 0;
    assert(string_views(file_paths@).take(0) =~= Seq::empty());
    while i < file_paths.len()
        invariant
            i <= file_paths.len(),
            tree@ == file_tree(string_views(file_paths@).take(i as int)),
        decreases file_paths.len() - i,
    {
        proof {
            let all = string_views(file_paths@);
            assert(all.take(i + 1).drop_last() =~= all.take(i as int));
            assert(all.take(i + 1).last() == file_paths@[i as int]@);
        }
        tree.append(file_paths[i].as_str());
        tree.push('\n');
        i += 1;
    }
    assert(string_views(file_paths@).take(i as int) =~= string_views(file_paths@));
    tree
}

/// The name of the language of a file with the extension `extension`, as it
/// is written after a code fence; an extension that is not known names
/// itself.
pub open spec fn language_of(extension: Seq<char>) -> Seq<char> {
    if extension == "js"@ {
        "javascript"@
    } else if extension == "ts"@ {
        "typescript"@
    } else if extension == "jsx"@ || extension == "tsx"@ {
        "tsx"@
    } else if extension == "py"@ {
        "python"@
    } else if extension == "rs"@ {
        "rust"@
    } else if extension == "go"@ {
        "go"@
    } else if extension == "java"@ {
        "java"@
    } else if extension == "cpp"@ || extension == "c"@ || extension == "h"@ {
        "cpp"@
    } else {
        extension
    }
}

/// The name of the language of a file with the extension `extension`.
pub fn language_identifier(extension: &str) -> (r: String)
    ensures
        r@ == language_of(extension@),
{
    if same_text(extension, "js") {
        String::from_str("javascript")
    } else if same_text(extension, "ts") {
        String::from_str("typescript")
    } else if same_text(extension, "jsx") || same_text(extension, "tsx") {
        String::from_str("tsx")
    } else if same_text(extension, "py") {
        String::from_str("python")
    } else if same_text(extension, "rs") {
        String::from_str("rust")
    } else if same_text(extension, "go") {
        String::from_str("go")
    } else if same_text(extension, "java") {
        String::from_str("java")
    } else if same_text(extension, "cpp") || same_text(extension, "c") || same_text(
        extension,
        "h",
    ) {
        String::from_str("cpp")
    } else {
        String::from_str(extension)
    }
}

/// A file that goes into a prompt: its path, its extension and its text.
#[derive(Debug, PartialEq, Eq)]
pub struct SourceFile {
    pub path: String,
    pub extension: String,
    pub content: String,
}

/// A `SourceFile` as plain sequences of characters.
pub struct SourceFileView {
    pub path: Seq<char>,
    pub extension: Seq<char>,
    pub content: Seq<char>,
}

impl View for SourceFile {
    type V = SourceFileView;

    open spec fn view(&self) -> SourceFileView {
        SourceFileView { path: self.path@, extension: self.extension@, content: self.content@ }
    }
}

/// The views of a sequence of source files.
pub open spec fn source_views(s: Seq<SourceFile>) -> Seq<SourceFileView> {
    s.map_values(|f: SourceFile| f@)
}

/// A file as it stands in a prompt: its path, then its text in a code fence
/// that names its language.
pub open spec fn file_section(file: SourceFileView) -> Seq<char> {
    "File: "@ + file.path + "\n```"@ + language_of(file.extension) + "\n"@ + file.content
        + "\n```\n\n"@
}

/// The files of `files` as they stand in a prompt, one after the other.
pub open spec fn file_sections(files: Seq<SourceFileView>) -> Seq<char>
    decreases files.len(),
{
    if files.len() == 0 {
        Seq::empty()
    } else {
        file_sections(files.drop_last()) + file_section(files.last())
    }
}

/// The prompt: the list of the paths, the files, an empty section for
/// instructions on formatting, and what the user asks.
pub open spec fn xml_prompt(
    paths: Seq<Seq<char>>,
    files: Seq<SourceFileView>,
    user_prompt: Seq<char>,
) -> Seq<char> {
    "<file_map>\n"@ + file_tree(paths) + "</file_map>\n\n"@ + "<file_contents>\n"@ + file_sections(
        files,
    ) + "</file_contents>\n\n"@ + "<xml_formatting_instructions>\n"@
        + "</xml_formatting_instructions>\n\n"@ + "<user_instructions>\n"@ + user_prompt
        + "\n</user_instructions>\n"@
}

/// Appends to `out` a file as it stands in a prompt.
fn push_file_section(out: &mut String, file: &SourceFile)
    ensures
        final(out)@ == old(out)@ + file_section(file@),
{
    let language = language_identifier(file.extension.as_str());
    out.append("File: ");
    out.append(file.path.as_str());
    out.append("\n```");
    out.append(language.as_str());
    out.append("\n");
    out.append(file.content.as_str());
    out.append("\n```\n\n");
    assert(out@ =~= old(out)@ + file_section(file@));
}

/// The prompt for the paths `file_paths`, of which those that are files
/// have been read into `files`, and for what the user asks.
pub fn generate_xml_prompt(file_paths: &[String], files: &[SourceFile], user_prompt: &str) -> (xml:
    String)
    ensures
        xml@ == xml_prompt(string_views(file_paths@), source_views(files@), user_prompt@),
{
    let mut xml = String::new();
    xml.append("<file_map>\n");
    let tree = generate_file_tree(file_paths);
    xml.append(tree.as_str());
    xml.append("</file_map>\n\n");
    xml.append("<file_contents>\n");
    let ghost head = xml@;
    let mut i: usize = 0;
    assert(source_views(files@).take(0) =~= Seq::empty());
    assert(xml@ =~= head + file_sections(source_views(files@).take(0)));
    while i < files.len()
        invariant
            i <= files.len(),
            xml@ == head + file_sections(source_views(files@).take(i as int)),
        decreases files.len() - i,
    {
        proof {
            let all = source_views(files@);
            assert(all.take(i + 1).drop_last() =~= all.take(i as int));
            assert(all.take(i + 1).last() == files@[i as int]@);
        }
        push_file_section(&mut xml, &files[i]);
        assert(xml@ =~= head + file_sections(source_views(files@).take(i + 1)));
        i += 1;
    }
    assert(source_views(files@).take(i as int) =~= source_views(files@));
    xml.append("</file_contents>\n\n");
    xml.append("<xml_formatting_instructions>\n");
    xml.append("</xml_formatting_instructions>\n\n");
    xml.append("<user_instructions>\n");
    xml.append(user_prompt);
    xml.append("\n</user_instructions>\n");
    assert(xml@ =~= xml_prompt(string_views(file_paths@), source_views(files@), user_prompt@));
    xml
}

} // verus!
