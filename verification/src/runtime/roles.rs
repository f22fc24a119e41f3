//! Roles: named system prompts loaded from `.mra/roles/<name>.md`.
//!
//! Roles are plain Markdown files whose content becomes a System message
//! prepended before the user prompt in a single LLM call.

use vstd::prelude::*;

use crate::name_map::NameMap;
use crate::sequences;
use crate::text;

verus! {

/// A loaded role: its name and Markdown system prompt content.
#[derive(Debug)]
pub struct Role {
    /// The stem of the `.md` filename (e.g. `"analyst"` for `analyst.md`).
    pub name: String,
    /// The full Markdown content used as the System message.
    pub system_prompt: String,
}

/// What a [`Role`] holds.
pub struct RoleView {
    /// Name of the role.
    pub name: Seq<char>,
    /// Its system prompt.
    pub system_prompt: Seq<char>,
}

impl View for Role {
    type V = RoleView;

    open spec fn view(&self) -> RoleView {
        RoleView { name: self.name@, system_prompt: self.system_prompt@ }
    }
}

/// A file of the roles directory.
#[derive(Debug)]
pub struct RoleFile {
    /// The name of the file, without its directory.
    pub file_name: String,
    /// The content, if it could be read.
    pub content: Option<String>,
}

/// The name of the role that a file holds: a role file has the extension `md`,
/// and its stem, which is not empty, is the name.
pub open spec fn role_of(file_name: Seq<char>) -> Option<Seq<char>> {
    if file_name.len() > 3 && file_name.skip(file_name.len() - 3) == seq!['.', 'm', 'd'] {
        Some(file_name.take(file_name.len() - 3))
    } else {
        None
    }
}

/// The name of the role that a file holds, if it is a role file.
pub fn role_name(file_name: &str) -> (r: Option<String>)
    ensures
        sequences::text_of(r) == role_of(file_name@),
{
    let chars = text::chars_of(file_name);
    let n = chars.len();
    if n > 3 && chars[n - 3] == '.' && chars[n - 2] == 'm' && chars[n - 1] == 'd' {
        assert(file_name@.skip(n - 3) =~= seq!['.', 'm', 'd']);
        let stem = file_name.substring_char(0, n - 3);
        assert(file_name@.subrange(0, n - 3) =~= file_name@.take(n - 3));
        Some(stem.to_owned())
    } else {
        proof {
            if n > 3 && file_name@.skip(n - 3) == seq!['.', 'm', 'd'] {
                assert(file_name@.skip(n - 3)[0] == '.');
                assert(file_name@.skip(n - 3)[1] == 'm');
                assert(file_name@.skip(n - 3)[2] == 'd');
            }
        }
        None
    }
}

/// The roles that a list of files holds. A file that is no role file or could
/// not be read counts for nothing; of two files for one role the later counts.
pub open spec fn roles_of(files: Seq<RoleFile>) -> Map<Seq<char>, RoleView>
    decreases files.len(),
{
    if files.len() == 0 {
        Map::empty()
    } else {
        let before = roles_of(files.drop_last());
        let file = files.last();
        match (role_of(file.file_name@), file.content) {
            (Some(name), Some(content)) => before.insert(
                name,
                RoleView { name, system_prompt: content@ },
            ),
            _ => before,
        }
    }
}

/// Loaded role registry. Populated when the runtime is built.
pub struct RoleRegistry {
    roles: NameMap<Role>,
}

impl View for RoleRegistry {
    type V = Map<Seq<char>, RoleView>;

    closed spec fn view(&self) -> Map<Seq<char>, RoleView> {
        self.roles@.map_values(|role: Role| role@)
    }
}

impl RoleRegistry {
    /// Every role is loaded once.
    pub closed spec fn wf(&self) -> bool {
        self.roles.wf()
    }

    /// Creates an empty registry.
    pub fn new() -> (r: Self)
        ensures
            r.wf(),
            r@ == Map::<Seq<char>, RoleView>::empty(),
    {
        let r = RoleRegistry { roles: NameMap::new() };
        assert(r@ =~= Map::empty());
        r
    }

    /// Loads the role files of a directory. The filename stem becomes the role
    /// name.
    pub fn load(files: &Vec<RoleFile>) -> (r: Self)
        ensures
            r.wf(),
            r@ == roles_of(files@),
    {
        let mut registry = RoleRegistry::new();
        let mut i: usize = 0;
        assert(files@.take(0) =~= Seq::empty());
        while i < files.len()
            invariant
                registry.wf(),
                i <= files@.len(),
                registry@ == roles_of(files@.take(i as int)),
            decreases files@.len() - i,
        {
            let file = &files[i];
            let ghost before = registry@;
            proof {
                assert(files@.take(i + 1).drop_last() =~= files@.take(i as int));
                assert(files@.take(i + 1).last() == file);
            }
            match (role_name(file.file_name.as_str()), &file.content) {
                (Some(name), Some(content)) => {
                    let role = Role { name: name.clone(), system_prompt: content.clone() };
                    registry.roles.insert(name, role);
                    assert(registry@ =~= before.insert(role@.name, role@));
                },
                _ => {},
            }
            i += 1;
        }
        assert(files@.take(i as int) =~= files@);
        registry
    }

    /// Looks up a role by name. Returns `None` if not found.
    pub fn get(&self, name: &str) -> (r: Option<&Role>)
        requires
            self.wf(),
        ensures
            match r {
                Some(role) => self@.dom().contains(name@) && role@ == self@[name@],
                None => !self@.dom().contains(name@),
            },
    {
        self.roles.get(name)
    }
}

/// A role is found under the stem of its file.
pub proof fn law_roles_are_named_after_files(files: Seq<RoleFile>, name: Seq<char>)
    requires
        roles_of(files).dom().contains(name),
    ensures
        roles_of(files)[name].name == name,
        exists|i: int|
            0 <= i < files.len() && role_of((#[trigger] files[i]).file_name@) == Some(name)
                && sequences::text_of(files[i].content) == Some(
                roles_of(files)[name].system_prompt,
            ),
    decreases files.len(),
{
    if files.len() > 0 {
        let init = files.drop_last();
        let last = files.last();
        if role_of(last.file_name@) == Some(name) && last.content is Some {
            assert(files[files.len() - 1] == last);
        } else {
            law_roles_are_named_after_files(init, name);
            let i = choose|i: int|
                0 <= i < init.len() && role_of((#[trigger] init[i]).file_name@) == Some(name)
                    && sequences::text_of(init[i].content) == Some(
                    roles_of(init)[name].system_prompt,
                );
            assert(files[i] == init[i]);
        }
    }
}

/// A file holds a role if and only if its name is the role's, which is not empty,
/// followed by the extension `md`.
pub proof fn law_role_files_are_markdown(stem: Seq<char>, file_name: Seq<char>)
    ensures
        stem.len() > 0 ==> role_of(stem + seq!['.', 'm', 'd']) == Some(stem),
        role_of(file_name) matches Some(name) ==> name.len() > 0 && file_name == name + seq![
            '.',
            'm',
            'd',
        ],
{
    let file = stem + seq!['.', 'm', 'd'];
    assert(file.skip(stem.len() as int) =~= seq!['.', 'm', 'd']);
    assert(file.take(stem.len() as int) =~= stem);
    if role_of(file_name) is Some {
        let n = file_name.len() - 3;
        assert(file_name =~= file_name.take(n) + file_name.skip(n));
    }
}

/// Every role file that can be read is loaded, with its whole content as the prompt,
/// unless a later file has the same role.
pub proof fn law_every_role_file_is_loaded(files: Seq<RoleFile>, i: int)
    requires
        0 <= i < files.len(),
        role_of(files[i].file_name@) is Some,
        files[i].content is Some,
    ensures
        ({
            let name = role_of(files[i].file_name@)->0;
            let later = exists|j: int|
                i < j < files.len() && role_of((#[trigger] files[j]).file_name@) == Some(name)
                    && files[j].content is Some;
            &&& roles_of(files).dom().contains(name)
            &&& !later ==> roles_of(files)[name].system_prompt == files[i].content->0@
        }),
    decreases files.len(),
{
    let name = role_of(files[i].file_name@)->0;
    let init = files.drop_last();
    let last = files.last();
    if i < init.len() {
        assert(init[i] == files[i]);
        law_every_role_file_is_loaded(init, i);
        if role_of(last.file_name@) == Some(name) && last.content is Some {
            assert(files[files.len() - 1] == last);
        } else if exists|j: int|
            i < j < init.len() && role_of((#[trigger] init[j]).file_name@) == Some(name)
                && init[j].content is Some {
            let j = choose|j: int|
                i < j < init.len() && role_of((#[trigger] init[j]).file_name@) == Some(name)
                    && init[j].content is Some;
            assert(files[j] == init[j]);
        }
    }
}

} // verus!
