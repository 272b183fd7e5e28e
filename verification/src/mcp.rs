//! Naming and registry of the tools offered by MCP servers.
use vstd::prelude::*;
use vstd::string::StringExecFns;

use crate::chars::push_char;
use crate::protocol::{Tool, ToolView};
use crate::str_map::{distinct_keys, entries_map, StrMap};

verus! {

/// `s` with every `-` replaced by `_`.
pub open spec fn hyphens_to_underscores(s: Seq<char>) -> Seq<char> {
    s.map_values(|c: char| if c == '-' { '_' } else { c })
}

fn replace_hyphens(s: &str, out: &mut String)
    ensures
        final(out)@ == old(out)@ + hyphens_to_underscores(s@),
{
    let ghost start = out@;
    for c in it: s.chars()
        invariant
            it.seq() == s@,
            out@ == start + hyphens_to_underscores(s@.take(it.index() as int)),
    {
        assert(s@.take(it.index() + 1) == s@.take(it.index() as int).push(c));
        if c == '-' {
            push_char(out, '_');
        } else {
            push_char(out, c);
        }
        assert(hyphens_to_underscores(s@.take(it.index() + 1)) =~= hyphens_to_underscores(s@.take(it.index() as int)).push(if c == '-' { '_' } else { c }));
    }
    assert(s@.take(s@.len() as int) == s@);
}


/// The OpenAI-compatible name of the tool `tool` of the server `server`: both
/// with hyphens made underscores, joined by a double underscore.
pub open spec fn spec_namespaced_name(server: Seq<char>, tool: Seq<char>) -> Seq<char> {
    hyphens_to_underscores(server) + seq!['_', '_'] + hyphens_to_underscores(tool)
}

/// Creates an OpenAI-compatible namespaced tool name using double underscores
/// Normalizes server_id and tool_name by replacing hyphens with underscores
fn namespaced_name(server_id: &str, tool_name: &str) -> (r: String)
    ensures
        r@ == spec_namespaced_name(server_id@, tool_name@),
{
    let mut r = String::new();
    replace_hyphens(server_id, &mut r);
    push_char(&mut r, '_');
    push_char(&mut r, '_');
    replace_hyphens(tool_name, &mut r);
    r
}

/// `s` holds two underscores in a row.
pub open spec fn has_double_underscore(s: Seq<char>) -> bool {
    exists|k: int| 0 <= k && k + 1 < s.len() && #[trigger] s[k] == '_' && s[k + 1] == '_'
}

/// `s` is `server` and `tool` joined at the first double underscore of `s`.
pub open spec fn is_namespaced_split(s: Seq<char>, server: Seq<char>, tool: Seq<char>) -> bool {
    &&& s == server + seq!['_', '_'] + tool
    &&& !has_double_underscore(server.push('_'))
}

/// The message of the error for a name that is not namespaced.
pub open spec fn invalid_name_message(name: Seq<char>) -> Seq<char> {
    "Invalid namespaced tool name: '"@ + name + "'. Expected format 'server_id__tool_name'"@
}

/// A split at the first double underscore is the only one.
pub proof fn law_namespaced_split_unique(s: Seq<char>, a1: Seq<char>, b1: Seq<char>, a2: Seq<char>, b2: Seq<char>)
    requires
        is_namespaced_split(s, a1, b1),
        is_namespaced_split(s, a2, b2),
    ensures
        a1 == a2,
        b1 == b2,
{
    if a1.len() < a2.len() {
        let k = a1.len() as int;
        assert(s[k] == '_' && s[k + 1] == '_');
        assert(a2.push('_')[k] == s[k]);
        assert(a2.push('_')[k + 1] == s[k + 1]);
    }
    if a2.len() < a1.len() {
        let k = a2.len() as int;
        assert(s[k] == '_' && s[k + 1] == '_');
        assert(a1.push('_')[k] == s[k]);
        assert(a1.push('_')[k + 1] == s[k + 1]);
    }
    assert(a1 =~= s.subrange(0, a1.len() as int));
    assert(a2 =~= s.subrange(0, a2.len() as int));
    assert(b1 =~= s.subrange(a1.len() as int + 2, s.len() as int));
    assert(b2 =~= s.subrange(a2.len() as int + 2, s.len() as int));
}

/// Parses a namespaced tool name into server_id and tool_name components
/// "filesystem__read_file" -> ("filesystem", "read_file")
///
/// The name is split at its first double underscore; a name without one is
/// refused with a message that quotes it.
pub fn parse_namespaced_tool_name(namespaced_name: &str) -> (r: Result<(String, String), String>)
    ensures
        match r {
            Ok((server, tool)) => is_namespaced_split(namespaced_name@, server@, tool@),
            Err(message) => !has_double_underscore(namespaced_name@) && message@ == invalid_name_message(
                namespaced_name@,
            ),
        },
{
    let ghost s = namespaced_name@;
    let mut server = String::new();
    let mut tool = String::new();
    let mut pending = false;
    let mut found = false;
    for c in it: namespaced_name.chars()
        invariant
            it.seq() == s,
            !found ==> server@ + (if pending {
                seq!['_']
            } else {
                Seq::<char>::empty()
            }) == s.take(it.index() as int),
            !found ==> !has_double_underscore(s.take(it.index() as int)),
            !found && !pending ==> server@.len() == 0 || server@.last() != '_',
            !found ==> tool@.len() == 0,
            found ==> server@ + seq!['_', '_'] + tool@ == s.take(it.index() as int),
            found ==> !has_double_underscore(server@.push('_')),
    {
        let ghost prefix = s.take(it.index() as int);
        assert(s.take(it.index() + 1) == prefix.push(c));
        if found {
            let ghost before = tool@;
            push_char(&mut tool, c);
            assert(server@ + seq!['_', '_'] + tool@ =~= (server@ + seq!['_', '_'] + before).push(c));
        } else if c == '_' {
            if pending {
                found = true;
                pending = false;
                assert(server@.push('_') =~= prefix);
                assert(server@ + seq!['_', '_'] + tool@ =~= prefix.push(c));
            } else {
                pending = true;
                assert(!has_double_underscore(prefix.push(c))) by {
                    if has_double_underscore(prefix.push(c)) {
                        let k = choose|k: int| 0 <= k && k + 1 < prefix.push(c).len() && #[trigger] prefix.push(c)[k] == '_' && prefix.push(c)[k + 1] == '_';
                        if k + 1 < prefix.len() {
                            assert(prefix[k] == '_' && prefix[k + 1] == '_');
                        } else {
                            assert(prefix == server@);
                            assert(prefix.last() == '_');
                        }
                    }
                }
            }
        } else {
            if pending {
                push_char(&mut server, '_');
                pending = false;
            }
            push_char(&mut server, c);
            assert(!has_double_underscore(prefix.push(c))) by {
                if has_double_underscore(prefix.push(c)) {
                    let k = choose|k: int| 0 <= k && k + 1 < prefix.push(c).len() && #[trigger] prefix.push(c)[k] == '_' && prefix.push(c)[k + 1] == '_';
                    if k + 1 < prefix.len() {
                        assert(prefix[k] == '_' && prefix[k + 1] == '_');
                    } else {
                        assert(prefix.push(c)[k + 1] == c);
                    }
                }
            }
        }
    }
    assert(s.take(s.len() as int) == s);
    if found {
        Ok((server, tool))
    } else {
        let mut message = String::from_str("Invalid namespaced tool name: '");
        message.append(namespaced_name);
        message.append("'. Expected format 'server_id__tool_name'");
        Err(message)
    }
}

/// How a tool name is shown: `server: tool` for a namespaced name split at its
/// first double underscore, the name itself otherwise.
pub open spec fn spec_display_name(s: Seq<char>) -> Seq<char> {
    if has_double_underscore(s) {
        let (server, tool) = choose|server: Seq<char>, tool: Seq<char>|
            is_namespaced_split(s, server, tool);
        server + seq![':', ' '] + tool
    } else {
        s
    }
}

/// Converts a namespaced tool name to a display-friendly format for UI
/// "filesystem__read_file" -> "filesystem: read_file"
///
/// A name that is not namespaced is shown as it is.
pub fn display_name_from_namespaced(namespaced_name: &str) -> (r: String)
    ensures
        r@ == spec_display_name(namespaced_name@),
        (exists|server: Seq<char>, tool: Seq<char>|
            is_namespaced_split(namespaced_name@, server, tool) && r@ == server + seq![':', ' '] + tool)
            || (!has_double_underscore(namespaced_name@) && r@ == namespaced_name@),
{
    match parse_namespaced_tool_name(namespaced_name) {
        Ok((server_id, tool_name)) => {
            proof {
                let s = namespaced_name@;
                assert(has_double_underscore(s)) by {
                    let k = server_id@.len() as int;
                    assert(s[k] == '_' && s[k + 1] == '_');
                }
                let (a, b) = choose|a: Seq<char>, b: Seq<char>| is_namespaced_split(s, a, b);
                law_namespaced_split_unique(s, a, b, server_id@, tool_name@);
            }
            let mut r = server_id;
            push_char(&mut r, ':');
            push_char(&mut r, ' ');
            r.append(tool_name.as_str());
            r
        },
        Err(_) => String::from_str(namespaced_name),
    }
}

/// A tool known to the registry, with the server that offers it.
#[derive(Debug)]
pub struct ToolRegistryEntry {
    pub server_id: String,
    pub original_name: String,
    pub namespaced_name: String,
    pub schema: Tool,
}

/// Abstract form of a [`ToolRegistryEntry`].
pub ghost struct EntryView {
    pub server_id: Seq<char>,
    pub original_name: Seq<char>,
    pub namespaced_name: Seq<char>,
    pub schema: ToolView,
}

impl DeepView for ToolRegistryEntry {
    type V = EntryView;

    open spec fn deep_view(&self) -> EntryView {
        EntryView {
            server_id: self.server_id@,
            original_name: self.original_name@,
            namespaced_name: self.namespaced_name@,
            schema: self.schema@,
        }
    }
}

impl Clone for ToolRegistryEntry {
    fn clone(&self) -> (r: ToolRegistryEntry)
        ensures
            r.deep_view() == self.deep_view(),
    {
        ToolRegistryEntry {
            server_id: self.server_id.clone(),
            original_name: self.original_name.clone(),
            namespaced_name: self.namespaced_name.clone(),
            schema: self.schema.clone(),
        }
    }
}

/// The entry the registry keeps for the tool `tool` of the server `server`.
pub open spec fn entry_for(server: Seq<char>, tool: ToolView) -> EntryView {
    EntryView {
        server_id: server,
        original_name: tool.name,
        namespaced_name: spec_namespaced_name(server, tool.name),
        schema: tool,
    }
}

/// `tools` with the tools of `server` registered one after the other, each under
/// its namespaced name (a later one replacing an earlier one of the same name).
pub open spec fn with_server_tools(
    tools: Map<Seq<char>, EntryView>,
    server: Seq<char>,
    added: Seq<ToolView>,
) -> Map<Seq<char>, EntryView>
    decreases added.len(),
{
    if added.len() == 0 {
        tools
    } else {
        with_server_tools(tools, server, added.drop_last()).insert(
            spec_namespaced_name(server, added.last().name),
            entry_for(server, added.last()),
        )
    }
}

/// `tools` without the tools named `names` of `server`.
pub open spec fn without_server_tools(
    tools: Map<Seq<char>, EntryView>,
    server: Seq<char>,
    names: Seq<Seq<char>>,
) -> Map<Seq<char>, EntryView>
    decreases names.len(),
{
    if names.len() == 0 {
        tools
    } else {
        without_server_tools(tools, server, names.drop_last()).remove(
            spec_namespaced_name(server, names.last()),
        )
    }
}

/// The tool as it is offered to bots: the schema of the entry under the entry's
/// namespaced name.
pub open spec fn offered_tool(e: EntryView) -> ToolView {
    ToolView { name: e.namespaced_name, ..e.schema }
}

/// The tools of the connected MCP servers, by namespaced name, and the names of
/// the tools of each server.
pub struct ToolRegistry {
    /// A map of all tools, keyed by their namespaced name.
    tools: StrMap<ToolRegistryEntry>,
    /// A map of all tools, keyed by their server_id.
    server_tools: StrMap<Vec<String>>,
}

/// Every entry is kept under its own namespaced name.
pub open spec fn keyed_by_namespaced_name(tools: Map<Seq<char>, EntryView>) -> bool {
    forall|k: Seq<char>| #[trigger] tools.contains_key(k) ==> tools[k].namespaced_name == k
}

impl ToolRegistry {
    #[verifier::type_invariant]
    spec fn consistent(self) -> bool {
        keyed_by_namespaced_name(self.tools@)
    }

    /// The registered tools, by namespaced name.
    pub closed spec fn spec_tools(&self) -> Map<Seq<char>, EntryView> {
        self.tools@
    }

    /// The original names of the tools of each server.
    pub closed spec fn spec_server_tools(&self) -> Map<Seq<char>, Seq<Seq<char>>> {
        self.server_tools@
    }

    /// An empty registry.
    pub fn new() -> (r: Self)
        ensures
            r.spec_tools() == Map::<Seq<char>, EntryView>::empty(),
            r.spec_server_tools() == Map::<Seq<char>, Seq<Seq<char>>>::empty(),
    {
        ToolRegistry { tools: StrMap::new(), server_tools: StrMap::new() }
    }

    /// Registers the tools of a server under their namespaced names and records
    /// their original names for the server (replacing what it had).
    pub fn add_server_tools(&mut self, server_id: &str, tools: Vec<Tool>)
        ensures
            final(self).spec_tools() == with_server_tools(
                old(self).spec_tools(),
                server_id@,
                tools@.map_values(|t: Tool| t@),
            ),
            final(self).spec_server_tools() == old(self).spec_server_tools().insert(
                server_id@,
                tools@.map_values(|t: Tool| t.name@),
            ),
    {
        proof {
            use_type_invariant(&*self);
        }
        let ghost views = tools@.map_values(|t: Tool| t@);
        let ghost names = tools@.map_values(|t: Tool| t.name@);
        let ghost old_tools = self.tools@;
        let mut registered: StrMap<ToolRegistryEntry> = StrMap::new();
        let mut servers: StrMap<Vec<String>> = StrMap::new();
        std::mem::swap(&mut registered, &mut self.tools);
        std::mem::swap(&mut servers, &mut self.server_tools);
        let mut tool_names: Vec<String> = Vec::new();
        for tool in it: tools.into_iter()
            invariant
                it.seq() == tools@,
                views == tools@.map_values(|t: Tool| t@),
                names == tools@.map_values(|t: Tool| t.name@),
                registered@ == with_server_tools(old_tools, server_id@, views.take(it.index() as int)),
                keyed_by_namespaced_name(registered@),
                tool_names.deep_view() == names.take(it.index() as int),
        {
            let ghost i = it.index() as int;
            let namespaced_name = namespaced_name(server_id, tool.name.as_str());
            let original_name = tool.name.clone();
            let entry = ToolRegistryEntry {
                server_id: String::from_str(server_id),
                original_name: original_name.clone(),
                namespaced_name: namespaced_name.clone(),
                schema: tool,
            };
            let ghost old_names = tool_names.deep_view();
            registered.insert(namespaced_name, entry);
            tool_names.push(original_name);
            proof {
                assert(views.take(i + 1).drop_last() =~= views.take(i));
                assert(views.take(i + 1).last() == tool@);
                assert(tool_names.deep_view() =~= old_names.push(tool.name@));
                assert(names.take(i + 1) =~= names.take(i).push(tool.name@));
            }
        }
        proof {
            assert(views.take(tools@.len() as int) =~= views);
            assert(names.take(tools@.len() as int) =~= names);
        }
        servers.insert(String::from_str(server_id), tool_names);
        *self = ToolRegistry { tools: registered, server_tools: servers };
    }

    /// The entry of the tool with the given namespaced name, if registered.
    pub fn get_tool_entry(&self, namespaced_name: &str) -> (r: Option<&ToolRegistryEntry>)
        ensures
            match r {
                Some(e) => self.spec_tools().contains_key(namespaced_name@) && self.spec_tools()[namespaced_name@]
                    == e.deep_view(),
                None => !self.spec_tools().contains_key(namespaced_name@),
            },
    {
        self.tools.get(namespaced_name)
    }

    /// Every registered tool, named by its namespaced name, each once (in no
    /// particular order).
    pub fn get_all_tools(&self) -> (r: Vec<Tool>)
        ensures
            forall|i: int|
                0 <= i < r@.len() ==> exists|k: Seq<char>|
                    #![trigger self.spec_tools()[k]]
                    self.spec_tools().contains_key(k) && (#[trigger] r@[i])@ == offered_tool(self.spec_tools()[k]),
            forall|k: Seq<char>|
                #![trigger self.spec_tools()[k]]
                self.spec_tools().contains_key(k) ==> exists|i: int|
                    0 <= i < r@.len() && r@[i]@ == offered_tool(self.spec_tools()[k]),
            forall|i: int, j: int| 0 <= i < j < r@.len() ==> r@[i].name@ != r@[j].name@,
    {
        proof {
            use_type_invariant(self);
        }
        let entries = self.tools.entries();
        let mut r: Vec<Tool> = Vec::new();
        let mut i: usize = 0;
        while i < entries.len()
            invariant
                i <= entries@.len(),
                distinct_keys(entries@),
                self.tools@ == entries_map(entries@),
                keyed_by_namespaced_name(self.tools@),
                r@.len() == i,
                forall|j: int| 0 <= j < i ==> #[trigger] r@[j]@ == offered_tool(entries@[j].1.deep_view()),
            decreases entries@.len() - i,
        {
            let entry = &entries[i].1;
            let mut tool = entry.schema.clone();
            tool.name = entry.namespaced_name.clone();
            r.push(tool);
            i += 1;
        }
        proof {
            assert forall|j: int| 0 <= j < entries@.len() implies #[trigger] entries_map(entries@).contains_key(entries@[j].0@)
                && entries_map(entries@)[entries@[j].0@] == entries@[j].1.deep_view() by {
                assert(crate::str_map::has_key(entries@, entries@[j].0@));
                let c = crate::str_map::index_of(entries@, entries@[j].0@);
                assert(entries@[c].0@ == entries@[j].0@);
            }
            assert forall|a: int| 0 <= a < r@.len() implies exists|k: Seq<char>|
                #![trigger self.spec_tools()[k]]
                self.spec_tools().contains_key(k) && (#[trigger] r@[a])@ == offered_tool(self.spec_tools()[k]) by {
                let k = entries@[a].0@;
                assert(entries_map(entries@).contains_key(k));
                assert(self.spec_tools()[k] == entries@[a].1.deep_view());
            }
            assert forall|k: Seq<char>|
                #![trigger self.spec_tools()[k]]
                self.spec_tools().contains_key(k) implies exists|a: int|
                    0 <= a < r@.len() && r@[a]@ == offered_tool(self.spec_tools()[k]) by {
                let a = crate::str_map::index_of(entries@, k);
                assert(r@[a]@ == offered_tool(entries@[a].1.deep_view()));
            }
            assert forall|a: int, b: int| 0 <= a < b < r@.len() implies r@[a].name@ != r@[b].name@ by {
                let ka = entries@[a].0@;
                let kb = entries@[b].0@;
                assert(entries_map(entries@).contains_key(ka));
                assert(entries_map(entries@).contains_key(kb));
                assert(self.spec_tools()[ka].namespaced_name == ka);
                assert(self.spec_tools()[kb].namespaced_name == kb);
                assert(r@[a]@ == offered_tool(entries@[a].1.deep_view()));
                assert(r@[b]@ == offered_tool(entries@[b].1.deep_view()));
            }
        }
        r
    }

    /// Forgets a server and the tools it registered.
    pub fn remove_server(&mut self, server_id: &str)
        ensures
            final(self).spec_server_tools() == old(self).spec_server_tools().remove(server_id@),
            final(self).spec_tools() == if old(self).spec_server_tools().contains_key(server_id@) {
                without_server_tools(
                    old(self).spec_tools(),
                    server_id@,
                    old(self).spec_server_tools()[server_id@],
                )
            } else {
                old(self).spec_tools()
            },
    {
        proof {
            use_type_invariant(&*self);
        }
        let ghost old_tools = self.tools@;
        let mut registered: StrMap<ToolRegistryEntry> = StrMap::new();
        let mut servers: StrMap<Vec<String>> = StrMap::new();
        std::mem::swap(&mut registered, &mut self.tools);
        std::mem::swap(&mut servers, &mut self.server_tools);
        if let Some(tool_names) = servers.remove(server_id) {
            let ghost names = tool_names.deep_view();
            for tool_name in it: tool_names.into_iter()
                invariant
                    it.seq().map_values(|n: String| n@) == names,
                    registered@ == without_server_tools(old_tools, server_id@, names.take(it.index() as int)),
                    keyed_by_namespaced_name(registered@),
            {
                let ghost i = it.index() as int;
                let namespaced_name = namespaced_name(server_id, tool_name.as_str());
                registered.remove(namespaced_name.as_str());
                proof {
                    assert(names[i] == tool_name@);
                    assert(names.take(i + 1).drop_last() =~= names.take(i));
                }
            }
            proof {
                assert(names.take(names.len() as int) =~= names);
            }
        }
        *self = ToolRegistry { tools: registered, server_tools: servers };
    }
}

/// A namespaced name parses back into the normalized server id and tool name,
/// as long as the normalized server id holds no double underscore and does not
/// end with an underscore (else the split falls elsewhere).
pub proof fn law_namespaced_name_parses_back(server: Seq<char>, tool: Seq<char>)
    requires
        !has_double_underscore(hyphens_to_underscores(server).push('_')),
    ensures
        is_namespaced_split(
            spec_namespaced_name(server, tool),
            hyphens_to_underscores(server),
            hyphens_to_underscores(tool),
        ),
{
}

/// After a server's tools are added, each of them is found under its namespaced
/// name, registered for that server under its original name.
pub proof fn law_added_tools_are_registered(
    tools: Map<Seq<char>, EntryView>,
    server: Seq<char>,
    added: Seq<ToolView>,
    i: int,
)
    requires
        0 <= i < added.len(),
    ensures
        with_server_tools(tools, server, added).contains_key(
            spec_namespaced_name(server, added[i].name),
        ),
        with_server_tools(tools, server, added)[spec_namespaced_name(
            server,
            added[i].name,
        )].server_id == server,
    decreases added.len(),
{
    let last = added.len() - 1;
    if i < last {
        law_added_tools_are_registered(tools, server, added.drop_last(), i);
        assert(added.drop_last()[i] == added[i]);
    }
}

/// After a server is removed, none of the tools it had registered is found any
/// more.
pub proof fn law_removed_server_tools_are_gone(
    tools: Map<Seq<char>, EntryView>,
    server: Seq<char>,
    names: Seq<Seq<char>>,
    i: int,
)
    requires
        0 <= i < names.len(),
    ensures
        !without_server_tools(tools, server, names).contains_key(
            spec_namespaced_name(server, names[i]),
        ),
    decreases names.len(),
{
    let last = names.len() - 1;
    if i < last {
        law_removed_server_tools_are_gone(tools, server, names.drop_last(), i);
        assert(names.drop_last()[i] == names[i]);
    }
}

/// A registered tool is offered to bots as it was registered, with only its
/// name replaced by its namespaced name: its description and input schema are
/// kept.
pub proof fn law_offered_tool_is_registered_tool_renamed(server: Seq<char>, tool: ToolView)
    ensures
        offered_tool(entry_for(server, tool)).name == spec_namespaced_name(server, tool.name),
        offered_tool(entry_for(server, tool)).description == tool.description,
        offered_tool(entry_for(server, tool)).input_schema == tool.input_schema,
{
}

/// Every entry is offered under its namespaced name, with the description and
/// input schema of its schema.
pub proof fn law_offered_tool_keeps_schema(e: EntryView)
    ensures
        offered_tool(e).name == e.namespaced_name,
        offered_tool(e).description == e.schema.description,
        offered_tool(e).input_schema == e.schema.input_schema,
{
}

} // verus!
