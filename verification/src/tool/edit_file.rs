//! File editing tool: search-and-replace within a file.
//!
//! Finds exactly one occurrence of `old_text` and swaps it for `new_text`. If the
//! match is missing or ambiguous, the tool returns an error message so the LLM
//! can try again with better arguments.

use vstd::prelude::*;

use crate::json::Json;
use crate::text;
use crate::text::decimal_text;
use crate::text::join2;
use crate::text::join3;
use crate::tool::OutputView;
use crate::tool::ToolOutput;
use crate::tool::ToolSpec;

verus! {

/// Arguments of the tool.
#[derive(Debug)]
pub struct EditFileArgs {
    /// Absolute or relative path to the file.
    pub path: String,
    /// The exact text to find. Must appear exactly once in the file;
    /// the tool refuses ambiguous edits.
    pub old_text: String,
    /// The text that replaces `old_text`.
    pub new_text: String,
}

/// A message about an error.
pub open spec fn complaint(content: Seq<char>) -> OutputView {
    OutputView { content, is_error: true }
}

/// Whether `i` is the only place where `pattern` stands in `content`.
/// Occurrences that overlap count.
pub open spec fn only_at(content: Seq<char>, pattern: Seq<char>, i: int) -> bool {
    text::occurs_at(content, pattern, i) && forall|j: int| #[trigger]
        text::occurs_at(content, pattern, j) ==> j == i
}

/// `content` with the occurrence of `old_text` at `i` replaced.
pub open spec fn replaced_at(
    content: Seq<char>,
    old_text: Seq<char>,
    new_text: Seq<char>,
    i: int,
) -> Seq<char> {
    content.take(i) + new_text + content.skip(i + old_text.len())
}

/// Whether `result` is the edit of `content`: the new content if the old text
/// stands in exactly one place; else a message that says whether it is missing
/// or ambiguous.
pub open spec fn is_edit(
    args: EditFileArgs,
    content: Seq<char>,
    result: Result<String, ToolOutput>,
) -> bool {
    match result {
        Ok(new_content) => exists|i: int| #[trigger]
            only_at(content, args.old_text@, i) && new_content@ == replaced_at(
                content,
                args.old_text@,
                args.new_text@,
                i,
            ),
        Err(output) => {
            if !text::is_within(content, args.old_text@) {
                output@ == complaint("old_text not found in "@ + args.path@)
            } else {
                &&& !(exists|i: int| #[trigger] only_at(content, args.old_text@, i))
                &&& output@ == complaint(
                    "old_text appears "@ + text::decimal(2) + " times in "@ + args.path@
                        + " (must be unique)"@,
                )
            }
        },
    }
}

fn output(content: String, is_error: bool) -> (r: ToolOutput)
    ensures
        r@ == (OutputView { content: content@, is_error }),
{
    ToolOutput { content, is_error }
}

impl EditFileArgs {
    /// The complaint about arguments that ask for nothing to be found.
    pub fn refusal(&self) -> (r: Option<ToolOutput>)
        ensures
            match r {
                Some(output) => self.old_text@.len() == 0 && output@ == complaint(
                    "old_text must be non-empty"@,
                ),
                None => self.old_text@.len() > 0,
            },
    {
        if self.old_text.as_str().is_empty() {
            Some(output("old_text must be non-empty".to_owned(), true))
        } else {
            None
        }
    }

    /// The complaint about a file that cannot be read.
    pub fn read_failed(&self, error: &str) -> (r: ToolOutput)
        ensures
            r@ == complaint("Failed to read "@ + self.path@ + ": "@ + error@),
    {
        let mut content = join3("Failed to read ", self.path.as_str(), ": ");
        content.append(error);
        output(content, true)
    }

    /// The complaint about a file that cannot be written.
    pub fn write_failed(&self, error: &str) -> (r: ToolOutput)
        ensures
            r@ == complaint("Failed to write "@ + self.path@ + ": "@ + error@),
    {
        let mut content = join3("Failed to write ", self.path.as_str(), ": ");
        content.append(error);
        output(content, true)
    }

    /// What is said of an edit that was written.
    pub fn done(&self) -> (r: ToolOutput)
        ensures
            r@ == (OutputView {
                content: "Replaced "@ + text::decimal(text::byte_len(self.old_text@))
                    + " bytes with "@ + text::decimal(text::byte_len(self.new_text@))
                    + " bytes in "@ + self.path@,
                is_error: false,
            }),
    {
        let old_bytes = decimal_text(text::byte_count(self.old_text.as_str()) as u64);
        let new_bytes = decimal_text(text::byte_count(self.new_text.as_str()) as u64);
        let mut content = join3("Replaced ", old_bytes.as_str(), " bytes with ");
        content.append(new_bytes.as_str());
        content.append(" bytes in ");
        content.append(self.path.as_str());
        output(content, false)
    }

    /// Replaces the one occurrence of the old text in the content of the file.
    pub fn apply(&self, content: &str) -> (r: Result<String, ToolOutput>)
        requires
            self.old_text@.len() > 0,
        ensures
            is_edit(*self, content@, r),
    {
        let chars = text::chars_of(content);
        let wanted = text::chars_of(self.old_text.as_str());
        let mut found: Option<usize> = None;
        let mut i: usize = 0;
        while i < chars.len()
            invariant
                chars@ == content@,
                wanted@ == self.old_text@,
                wanted@.len() > 0,
                i <= chars@.len(),
                match found {
                    None => forall|j: int|
                        0 <= j < i ==> !#[trigger] text::occurs_at(content@, wanted@, j),
                    Some(at) => {
                        &&& at < i
                        &&& text::occurs_at(content@, wanted@, at as int)
                        &&& forall|j: int|
                            0 <= j < i && #[trigger] text::occurs_at(content@, wanted@, j) ==> j
                                == at
                    },
                },
            decreases chars@.len() - i,
        {
            if text::stands_at(&chars, &wanted, i) {
                match found {
                    None => {
                        found = Some(i);
                    },
                    Some(at) => {
                        proof {
                            assert(text::occurs_at(content@, self.old_text@, i as int));
                            assert(text::is_within(content@, self.old_text@));
                            assert forall|k: int| !#[trigger] only_at(
                                content@,
                                self.old_text@,
                                k,
                            ) by {
                                if only_at(content@, self.old_text@, k) {
                                    assert(text::occurs_at(content@, self.old_text@, at as int));
                                    assert(text::occurs_at(content@, self.old_text@, i as int));
                                }
                            }
                        }
                        let mut message = join3(
                            "old_text appears ",
                            decimal_text(2).as_str(),
                            " times in ",
                        );
                        message.append(self.path.as_str());
                        message.append(" (must be unique)");
                        return Err(output(message, true));
                    },
                }
            }
            i += 1;
        }
        match found {
            None => {
                assert forall|j: int| !#[trigger] text::occurs_at(
                    content@,
                    self.old_text@,
                    j,
                ) by {}
                Err(output(join2("old_text not found in ", self.path.as_str()), true))
            },
            Some(at) => {
                let head = content.substring_char(0, at);
                let tail = content.substring_char(at + wanted.len(), chars.len());
                assert(only_at(content@, self.old_text@, at as int));
                assert(content@.subrange(0, at as int) =~= content@.take(at as int));
                assert(content@.subrange(at + wanted@.len(), content@.len() as int)
                    =~= content@.skip(at + wanted@.len()));
                Ok(join3(head, self.new_text.as_str(), tail))
            },
        }
    }
}

/// Search-and-replace tool for surgical file edits.
#[derive(Debug, Clone, Copy, PartialEq, Eq, Structural)]
pub struct EditFileTool;

impl EditFileTool {
    /// Creates a new `EditFileTool`.
    pub fn new() -> (r: Self)
        ensures
            r == EditFileTool,
    {
        EditFileTool
    }

    /// What the LLM sees, with the JSON Schema of the arguments.
    pub fn spec(&self, parameters: Json) -> (r: ToolSpec)
        ensures
            r.name@ == "edit_file"@,
            r.description@ == "Edit a file by replacing an exact text match with new text"@,
            r.parameters == parameters,
    {
        ToolSpec {
            name: "edit_file".to_owned(),
            description: "Edit a file by replacing an exact text match with new text".to_owned(),
            parameters,
        }
    }
}

/// An edit changes nothing before and nothing after the one place where the old
/// text stands.
pub proof fn law_edit_is_local(
    content: Seq<char>,
    old_text: Seq<char>,
    new_text: Seq<char>,
    i: int,
)
    requires
        only_at(content, old_text, i),
    ensures
        ({
            let after = replaced_at(content, old_text, new_text, i);
            &&& after.take(i) == content.take(i)
            &&& after.skip(i + new_text.len()) == content.skip(i + old_text.len())
            &&& text::occurs_at(after, new_text, i)
            &&& after.len() == content.len() - old_text.len() + new_text.len()
        }),
{
    let after = replaced_at(content, old_text, new_text, i);
    assert(after.take(i) =~= content.take(i));
    assert(after.skip(i + new_text.len()) =~= content.skip(i + old_text.len()));
    assert(after.subrange(i, i + new_text.len()) =~= new_text);
}

/// Putting the old text back in the place of the new one gives the content back.
pub proof fn law_edit_can_be_undone(
    content: Seq<char>,
    old_text: Seq<char>,
    new_text: Seq<char>,
    i: int,
)
    requires
        only_at(content, old_text, i),
    ensures
        replaced_at(
            replaced_at(content, old_text, new_text, i),
            new_text,
            old_text,
            i,
        ) == content,
{
    let after = replaced_at(content, old_text, new_text, i);
    law_edit_is_local(content, old_text, new_text, i);
    assert(replaced_at(after, new_text, old_text, i) =~= content.take(i) + content.subrange(
        i,
        i + old_text.len(),
    ) + content.skip(i + old_text.len()));
    assert(content.take(i) + content.subrange(i, i + old_text.len()) + content.skip(
        i + old_text.len(),
    ) =~= content);
}

/// An edit is made if and only if the old text stands in exactly one place: then the
/// file is what it was before that place, the new text, and what it was after it.
/// Else it is refused with an error, and nothing is changed.
pub proof fn law_edits_replace_the_one_place(
    args: EditFileArgs,
    content: Seq<char>,
    result: Result<String, ToolOutput>,
)
    requires
        is_edit(args, content, result),
    ensures
        result is Ok <==> exists|i: int| #[trigger]
            text::occurs_at(content, args.old_text@, i) && forall|j: int| #[trigger]
                text::occurs_at(content, args.old_text@, j) ==> j == i,
        result matches Ok(edited) ==> exists|i: int|
            0 <= i && i + args.old_text@.len() <= content.len() && content == #[trigger] content.take(
                i,
            ) + args.old_text@ + content.skip(i + args.old_text@.len()) && edited@
                == content.take(i) + args.new_text@ + content.skip(i + args.old_text@.len()),
        result matches Err(output) ==> output.is_error,
{
    match result {
        Ok(edited) => {
            let i = choose|i: int| #[trigger]
                only_at(content, args.old_text@, i) && edited@ == replaced_at(
                    content,
                    args.old_text@,
                    args.new_text@,
                    i,
                );
            assert(text::occurs_at(content, args.old_text@, i));
            text::law_occurrences_split_the_text(
                Seq::empty(),
                args.old_text@,
                Seq::empty(),
                content,
                i,
            );
            assert(content == content.take(i) + args.old_text@ + content.skip(
                i + args.old_text@.len(),
            ));
        },
        Err(output) => {
            assert forall|i: int| !(#[trigger] text::occurs_at(content, args.old_text@, i) && forall|
                j: int,
            | #[trigger]
                text::occurs_at(content, args.old_text@, j) ==> j == i) by {
                assert(!only_at(content, args.old_text@, i)) by {
                    if only_at(content, args.old_text@, i) {
                        assert(text::is_within(content, args.old_text@));
                    }
                }
            }
        },
    }
}

} // verus!
