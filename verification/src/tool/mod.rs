//! Tools that agents invoke.
//!
//! Provides [`ToolSpec`] (what the LLM sees), [`ToolOutput`] (what comes back),
//! and [`ToolRegistry`] for name-based lookup.

pub mod edit_file;
pub mod read_file;
pub mod shell;

use vstd::prelude::*;

use crate::error::ToolError;
use crate::json::Json;
use crate::name_map::NameMap;
use crate::text;
use crate::text::join2;

verus! {

/// Tool metadata sent to the LLM so it knows what tools exist and
/// how to call them.
#[derive(Debug)]
pub struct ToolSpec {
    /// Unique name the LLM uses to invoke this tool (e.g. `"shell"`).
    pub name: String,
    /// Short human-readable description shown to the model.
    pub description: String,
    /// JSON Schema describing the expected arguments.
    pub parameters: Json,
}

/// What a [`ToolSpec`] holds.
pub struct ToolSpecView {
    /// Name of the tool.
    pub name: Seq<char>,
    /// Its description.
    pub description: Seq<char>,
    /// Its parameters.
    pub parameters: Seq<char>,
}

impl View for ToolSpec {
    type V = ToolSpecView;

    open spec fn view(&self) -> ToolSpecView {
        ToolSpecView {
            name: self.name@,
            description: self.description@,
            parameters: self.parameters@,
        }
    }
}

impl Clone for ToolSpec {
    fn clone(&self) -> (r: ToolSpec)
        ensures
            r == *self,
    {
        ToolSpec {
            name: self.name.clone(),
            description: self.description.clone(),
            parameters: self.parameters.clone(),
        }
    }
}

/// Result of a tool invocation, returned to the LLM as a `tool` message.
#[derive(Debug)]
pub struct ToolOutput {
    /// The text payload (stdout, file contents, error message, etc.).
    pub content: String,
    /// `true` when the tool hit an error but still produced a message
    /// worth showing the model (e.g. a non-zero exit code with stderr).
    pub is_error: bool,
}

/// What a [`ToolOutput`] holds.
pub struct OutputView {
    /// The text payload.
    pub content: Seq<char>,
    /// Whether it tells of an error.
    pub is_error: bool,
}

impl View for ToolOutput {
    type V = OutputView;

    open spec fn view(&self) -> OutputView {
        OutputView { content: self.content@, is_error: self.is_error }
    }
}

/// A registered tool: what the LLM sees, and what performs the invocation.
pub struct Entry<T> {
    /// What the LLM sees.
    pub spec: ToolSpec,
    /// What performs the invocation.
    pub tool: T,
}

impl<T: Clone> Clone for Entry<T> {
    fn clone(&self) -> (r: Self)
        ensures
            r.spec == self.spec,
            cloned(self.tool, r.tool),
    {
        Entry { spec: self.spec.clone(), tool: self.tool.clone() }
    }
}

/// Name-keyed collection of tools available to an agent. A tool is whatever its
/// owner invokes.
pub struct ToolRegistry<T> {
    tools: NameMap<Entry<T>>,
}

impl<T: Clone> Clone for ToolRegistry<T> {
    /// A registry with the same specifications and clones of the tools.
    fn clone(&self) -> (r: Self)
        ensures
            self.wf() ==> r.wf(),
            r@.dom() == self@.dom(),
            self.wf() ==> forall|name: Seq<char>| #[trigger]
                r@.dom().contains(name) ==> r@[name].spec == self@[name].spec && cloned(
                    self@[name].tool,
                    r@[name].tool,
                ),
    {
        ToolRegistry { tools: self.tools.clone() }
    }
}

impl<T> View for ToolRegistry<T> {
    type V = Map<Seq<char>, Entry<T>>;

    closed spec fn view(&self) -> Map<Seq<char>, Entry<T>> {
        self.tools@
    }
}

/// Whether `after` and `r` are what it comes to when a tool is added to `tools`.
pub open spec fn is_registration<T>(
    tools: Map<Seq<char>, Entry<T>>,
    spec: ToolSpec,
    tool: T,
    after: Map<Seq<char>, Entry<T>>,
    r: Result<(), ToolError>,
) -> bool {
    if tools.dom().contains(spec.name@) {
        after == tools && r is Err
    } else {
        after == tools.insert(spec.name@, Entry { spec, tool }) && r is Ok
    }
}

/// Whether `r` is the tool of that name.
pub open spec fn is_lookup<T>(
    tools: Map<Seq<char>, Entry<T>>,
    name: Seq<char>,
    r: Result<&T, ToolError>,
) -> bool {
    match r {
        Ok(tool) => tools.dom().contains(name) && *tool == tools[name].tool,
        Err(error) => !tools.dom().contains(name) && (error matches ToolError::NotFound(what)
            && what@ == name),
    }
}

/// Whether specifications are in the order of their names, no name twice.
pub open spec fn in_order(specs: Seq<ToolSpec>) -> bool {
    forall|i: int, j: int|
        0 <= i < j < specs.len() ==> text::comes_before(
            (#[trigger] specs[i]).name@,
            (#[trigger] specs[j]).name@,
        )
}

/// Whether a specification of that name is among `specs`.
pub open spec fn lists(specs: Seq<ToolSpec>, name: Seq<char>) -> bool {
    exists|i: int| 0 <= i < specs.len() && (#[trigger] specs[i]).name@ == name
}

fn insert_in_order(specs: &mut Vec<ToolSpec>, spec: ToolSpec)
    requires
        in_order(old(specs)@),
        forall|i: int| 0 <= i < old(specs)@.len() ==> (#[trigger] old(specs)@[i]).name@ != spec.name@,
    ensures
        in_order(final(specs)@),
        final(specs)@.len() == old(specs)@.len() + 1,
        forall|i: int|
            0 <= i < final(specs)@.len() ==> #[trigger] final(specs)@[i] == spec || old(
                specs,
            )@.contains(final(specs)@[i]),
        lists(final(specs)@, spec.name@),
        forall|name: Seq<char>| #[trigger] lists(old(specs)@, name) ==> lists(final(specs)@, name),
{
    let ghost before = specs@;
    let mut at: usize = 0;
    while at < specs.len() && text::is_before(specs[at].name.as_str(), spec.name.as_str())
        invariant
            specs@ == before,
            at <= before.len(),
            forall|i: int|
                0 <= i < at ==> text::comes_before((#[trigger] before[i]).name@, spec.name@),
        decreases before.len() - at,
    {
        at += 1;
    }
    specs.insert(at, spec);
    proof {
        let after = specs@;
        assert(after =~= before.insert(at as int, spec));
        assert(after[at as int].name@ == spec.name@);
        assert forall|name: Seq<char>| #[trigger] lists(before, name) implies lists(after, name) by {
            let i = choose|i: int| 0 <= i < before.len() && (#[trigger] before[i]).name@ == name;
            let j = if i < at {
                i
            } else {
                i + 1
            };
            assert(after[j] == before[i]);
        }
        assert forall|i: int| at <= i < before.len() implies text::comes_before(
            spec.name@,
            (#[trigger] before[i]).name@,
        ) by {
            text::lemma_order_total(before[at as int].name@, spec.name@);
            if i > at {
                text::lemma_order_transitive(spec.name@, before[at as int].name@, before[i].name@);
            }
        }
        assert forall|i: int, j: int| 0 <= i < j < after.len() implies text::comes_before(
            (#[trigger] after[i]).name@,
            (#[trigger] after[j]).name@,
        ) by {
            if j < at {
                assert(after[i] == before[i]);
                assert(after[j] == before[j]);
            } else if j == at {
                assert(after[i] == before[i]);
            } else if i < at {
                assert(after[i] == before[i]);
                assert(after[j] == before[j - 1]);
            } else if i == at {
                assert(after[j] == before[j - 1]);
            } else {
                assert(after[i] == before[i - 1]);
                assert(after[j] == before[j - 1]);
            }
        }
        assert forall|i: int| 0 <= i < after.len() implies #[trigger] after[i] == spec
            || before.contains(after[i]) by {
            if i < at {
                assert(after[i] == before[i]);
            } else if i > at {
                assert(after[i] == before[i - 1]);
            }
        }
    }
}

impl<T> ToolRegistry<T> {
    /// Every tool is registered once, under the name of its specification.
    pub closed spec fn wf(&self) -> bool {
        &&& self.tools.wf()
        &&& forall|name: Seq<char>| #[trigger]
            self.tools@.dom().contains(name) ==> self.tools@[name].spec.name@ == name
    }

    /// Creates an empty registry.
    pub fn new() -> (r: Self)
        ensures
            r.wf(),
            r@ == Map::<Seq<char>, Entry<T>>::empty(),
    {
        ToolRegistry { tools: NameMap::new() }
    }

    /// Adds a tool. Returns an error if a tool with the same name is
    /// already registered.
    pub fn register(&mut self, spec: ToolSpec, tool: T) -> (r: Result<(), ToolError>)
        requires
            old(self).wf(),
        ensures
            final(self).wf(),
            match r {
                Ok(()) => {
                    &&& !old(self)@.dom().contains(spec.name@)
                    &&& final(self)@ == old(self)@.insert(spec.name@, Entry { spec, tool })
                },
                Err(error) => {
                    &&& old(self)@.dom().contains(spec.name@)
                    &&& error matches ToolError::InvalidArgs(what)
                    &&& what@ == "tool already registered: "@ + spec.name@
                    &&& final(self)@ == old(self)@
                },
            },
            is_registration(old(self)@, spec, tool, final(self)@, r),
    {
        if self.tools.contains(spec.name.as_str()) {
            return Err(
                ToolError::InvalidArgs(join2("tool already registered: ", spec.name.as_str())),
            );
        }
        let name = spec.name.clone();
        self.tools.insert(name, Entry { spec, tool });
        Ok(())
    }

    /// Returns specs for all registered tools, sorted by name.
    pub fn specs(&self) -> (r: Vec<ToolSpec>)
        requires
            self.wf(),
        ensures
            in_order(r@),
            r@.len() == self@.dom().len(),
            forall|i: int|
                0 <= i < r@.len() ==> {
                    &&& self@.dom().contains((#[trigger] r@[i]).name@)
                    &&& r@[i] == self@[r@[i].name@].spec
                },
            forall|name: Seq<char>| #[trigger]
                self@.dom().contains(name) ==> lists(r@, name),
    {
        let mut specs: Vec<ToolSpec> = Vec::new();
        let mut i: usize = 0;
        let ghost names = self.tools.names();
        proof {
            self.tools.lemma_names();
        }
        while i < self.tools.len()
            invariant
                self.wf(),
                names == self.tools.names(),
                names.no_duplicates(),
                i <= names.len(),
                specs@.len() == i,
                in_order(specs@),
                forall|j: int|
                    0 <= j < specs@.len() ==> {
                        &&& self@.dom().contains((#[trigger] specs@[j]).name@)
                        &&& specs@[j] == self@[specs@[j].name@].spec
                        &&& names.take(i as int).contains(specs@[j].name@)
                    },
                forall|k: int| 0 <= k < i ==> lists(specs@, #[trigger] names[k]),
            decreases names.len() - i,
        {
            let entry = self.tools.value_at(i);
            let ghost before = specs@;
            proof {
                let name = names[i as int];
                assert(entry.spec.name@ == name);
                assert forall|j: int| 0 <= j < before.len() implies (#[trigger] before[j]).name@
                    != name by {
                    let k = names.take(i as int).index_of(before[j].name@);
                    assert(names[k] == before[j].name@);
                }
            }
            insert_in_order(&mut specs, entry.spec.clone());
            proof {
                assert(names.take(i + 1) =~= names.take(i as int).push(names[i as int]));
                assert forall|j: int| 0 <= j < specs@.len() implies {
                    &&& self@.dom().contains((#[trigger] specs@[j]).name@)
                    &&& specs@[j] == self@[specs@[j].name@].spec
                    &&& names.take(i + 1).contains(specs@[j].name@)
                } by {
                    if specs@[j] == entry.spec {
                        assert(names.take(i + 1)[i as int] == specs@[j].name@);
                    } else {
                        let k = before.index_of(specs@[j]);
                        assert(before[k] == specs@[j]);
                        let m = names.take(i as int).index_of(before[k].name@);
                        assert(names.take(i + 1)[m] == before[k].name@);
                    }
                }
            }
            i += 1;
        }
        proof {
            names.unique_seq_to_set();
            assert forall|name: Seq<char>| #[trigger] self@.dom().contains(name) implies lists(
                specs@,
                name,
            ) by {
                assert(names.contains(name));
                assert(names[names.index_of(name)] == name);
            }
            assert(names.to_set() =~= self@.dom()) by {
                assert forall|name: Seq<char>| names.to_set().contains(name) <==> self@.dom().contains(
                    name,
                ) by {
                    assert(names.contains(name) <==> self@.dom().contains(name));
                }
            }
        }
        specs
    }

    /// Looks up a tool by name.
    pub fn get(&self, name: &str) -> (r: Option<&T>)
        requires
            self.wf(),
        ensures
            match r {
                Some(tool) => self@.dom().contains(name@) && *tool == self@[name@].tool,
                None => !self@.dom().contains(name@),
            },
    {
        match self.tools.get(name) {
            Some(entry) => Some(&entry.tool),
            None => None,
        }
    }

    /// Looks up the tool to invoke. Returns [`ToolError::NotFound`] if no such
    /// tool exists.
    pub fn find(&self, name: &str) -> (r: Result<&T, ToolError>)
        requires
            self.wf(),
        ensures
            match r {
                Ok(tool) => self@.dom().contains(name@) && *tool == self@[name@].tool,
                Err(error) => {
                    &&& !self@.dom().contains(name@)
                    &&& error matches ToolError::NotFound(what)
                    &&& what@ == name@
                },
            },
            is_lookup(self@, name@, r),
    {
        match self.get(name) {
            Some(tool) => Ok(tool),
            None => Err(ToolError::NotFound(name.to_owned())),
        }
    }
}

/// What is said of a tool and of its output is all that they hold.
pub proof fn law_tools_are_shown_whole(spec: ToolSpec, output: ToolOutput)
    ensures
        spec@.name == spec.name@,
        spec@.description == spec.description@,
        spec@.parameters == spec.parameters@,
        output@.content == output.content@,
        output@.is_error == output.is_error,
{
}

/// A list of tools in the order of their names holds no name twice, and whatever
/// stands before another comes first in the dictionary.
pub proof fn law_listed_tools_are_sorted(specs: Seq<ToolSpec>, i: int, j: int)
    requires
        in_order(specs),
        0 <= i < j < specs.len(),
    ensures
        text::comes_before(specs[i].name@, specs[j].name@),
        specs[i].name@ != specs[j].name@,
        lists(specs, specs[i].name@),
{
    text::lemma_order_irreflexive(specs[i].name@);
}

/// A tool that was added is found under its name and no other; a name is taken once, and
/// whoever comes later is refused. Every other tool is found as before.
pub proof fn law_tools_are_found_under_their_name<T>(
    tools: Map<Seq<char>, Entry<T>>,
    spec: ToolSpec,
    tool: T,
    after: Map<Seq<char>, Entry<T>>,
    added: Result<(), ToolError>,
    found: Result<&T, ToolError>,
    other: Seq<char>,
)
    requires
        is_registration(tools, spec, tool, after, added),
        is_lookup(after, spec.name@, found),
        other != spec.name@,
    ensures
        found is Ok,
        added is Ok <==> !tools.dom().contains(spec.name@),
        added is Ok ==> *found->Ok_0 == tool && after[spec.name@].spec == spec,
        added is Err ==> *found->Ok_0 == tools[spec.name@].tool && after == tools,
        after.dom().contains(other) <==> tools.dom().contains(other),
        tools.dom().contains(other) ==> after[other] == tools[other],
{
}

} // verus!
