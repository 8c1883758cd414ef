//! The tool registry: an immutable name-to-tool table built once at
//! startup.  Registration is last-write-wins per name — registering a
//! remote backend under a name held by a stub replaces the stub — and
//! lookup by name finds the single tool registered under it.

use crate::config::AppConfig;
use crate::json::{Json, JsonV};
use crate::tool::{
    sp_start_call, sp_tool_description, sp_tool_name, sp_tool_schema, GrammarLocalBackend,
    GrammarRemoteBackend, SpellcheckLocalBackend, SpellcheckRemoteBackend, ToolAction, ToolActionV,
    ToolImpl,
};
use vstd::prelude::*;

verus! {

/// The listing entry a registry reports for one tool.
#[derive(Debug)]
pub struct ToolMeta {
    pub name: String,
    pub description: String,
    pub input_schema: Json,
}

/// The last tool of `tools` carrying `name`, if any: what a sequence of
/// last-write-wins registrations leaves findable under `name`.
pub open spec fn sp_last_named(tools: Seq<ToolImpl>, name: Seq<char>) -> Option<ToolImpl>
    decreases tools.len(),
{
    if tools.len() == 0 {
        None
    } else if sp_tool_name(tools.last()) == name {
        Some(tools.last())
    } else {
        sp_last_named(tools.drop_last(), name)
    }
}

/// The first tool of `tools` registered under `name`, if any.
pub open spec fn sp_lookup(tools: Seq<ToolImpl>, name: Seq<char>) -> Option<ToolImpl>
    decreases tools.len(),
{
    if tools.len() == 0 {
        None
    } else if sp_tool_name(tools.first()) == name {
        Some(tools.first())
    } else {
        sp_lookup(tools.drop_first(), name)
    }
}

/// The names of `tools`, in registry order.
pub open spec fn sp_names(tools: Seq<ToolImpl>) -> Seq<Seq<char>> {
    Seq::new(tools.len(), |i: int| sp_tool_name(tools[i]))
}

/// What calling `name` with `args` against `tools` decides: the tool's
/// own decision, or an unknown-tool error.
pub open spec fn sp_call_tool(tools: Seq<ToolImpl>, name: Seq<char>, args: JsonV) -> ToolActionV {
    match sp_lookup(tools, name) {
        Some(t) => sp_start_call(t, args),
        None => ToolActionV::Reply(Err("unknown tool: "@ + name)),
    }
}

/// The immutable name-to-tool table.
#[derive(Debug)]
pub struct ToolRegistry {
    tools: Vec<ToolImpl>,
}

impl ToolRegistry {
    /// The tools the registry holds, in registration order.
    pub closed spec fn spec_tools(self) -> Seq<ToolImpl> {
        self.tools@
    }

    /// Each name appears at most once.
    pub open spec fn wf(self) -> bool {
        forall|i: int, j: int|
            0 <= i < j < self.spec_tools().len() ==> sp_tool_name(#[trigger] self.spec_tools()[i])
                != sp_tool_name(#[trigger] self.spec_tools()[j])
    }

    /// An empty registry.
    pub fn new() -> (r: Self)
        ensures
            r.spec_tools() =~= Seq::<ToolImpl>::empty(),
            r.wf(),
    {
        ToolRegistry { tools: Vec::new() }
    }

    /// Register `tool` under its own name; a tool already registered
    /// under that name is replaced, everything else is untouched.
    pub fn register(&mut self, tool: ToolImpl)
        requires
            old(self).wf(),
        ensures
            final(self).wf(),
            sp_lookup(final(self).spec_tools(), sp_tool_name(tool)) == Some(tool),
            forall|n: Seq<char>|
                n != sp_tool_name(tool) ==> #[trigger] sp_lookup(final(self).spec_tools(), n)
                    == sp_lookup(old(self).spec_tools(), n),
    {
        let ghost old_tools = self.tools@;
        let name = tool.name();
        let n = self.tools.len();
        let mut i: usize = 0;
        while i < n
            invariant
                n == self.tools@.len(),
                i <= n,
                self.tools@ == old_tools,
                old_tools == old(self).spec_tools(),
                old(self).wf(),
                forall|k: int| 0 <= k < i ==> sp_tool_name(#[trigger] old_tools[k]) != name@,
                name@ == sp_tool_name(tool),
            decreases n - i,
        {
            let here = crate::text::str_eq(self.tools[i].name(), name);
            if here {
                self.tools.set(i, tool);
                proof {
                    lemma_lookup_replace(old_tools, self.tools@, i as int);
                    assert forall|a: int, b: int|
                        0 <= a < b < self.tools@.len() implies sp_tool_name(
                        #[trigger] self.tools@[a],
                    ) != sp_tool_name(#[trigger] self.tools@[b]) by {
                        assert(sp_tool_name(self.tools@[a]) == sp_tool_name(old_tools[a]));
                        assert(sp_tool_name(self.tools@[b]) == sp_tool_name(old_tools[b]));
                        assert(sp_tool_name(old_tools[a]) != sp_tool_name(old_tools[b]));
                    }
                }
                return ;
            }
            i = i + 1;
        }
        self.tools.push(tool);
        proof {
            lemma_lookup_push(old_tools, tool);
            assert forall|a: int, b: int|
                0 <= a < b < self.tools@.len() implies sp_tool_name(#[trigger] self.tools@[a])
                != sp_tool_name(#[trigger] self.tools@[b]) by {
                if b < old_tools.len() {
                    assert(sp_tool_name(old_tools[a]) != sp_tool_name(old_tools[b]));
                } else {
                    assert(sp_tool_name(old_tools[a]) != name@);
                }
            }
        }
    }

    /// A registry holding each given tool, registered in order: for every
    /// name, the last given tool carrying it is the one registered.
    pub fn with_tools(tools: Vec<ToolImpl>) -> (r: Self)
        ensures
            r.wf(),
            forall|n: Seq<char>| #[trigger] sp_lookup(r.spec_tools(), n) == sp_last_named(
                tools@,
                n,
            ),
    {
        let ghost all = tools@;
        let mut reg = ToolRegistry::new();
        let mut rest = tools;
        proof {
            assert(all.take(0).len() == 0);
            assert(rest@ =~= all.skip(0));
        }
        while rest.len() > 0
            invariant
                reg.wf(),
                rest@.len() <= all.len(),
                rest@ =~= all.skip(all.len() - rest@.len()),
                forall|n: Seq<char>| #[trigger] sp_lookup(reg.spec_tools(), n) == sp_last_named(
                    all.take(all.len() - rest@.len()),
                    n,
                ),
            decreases rest@.len(),
        {
            let ghost i = all.len() - rest@.len();
            let ghost before = reg.spec_tools();
            let t = rest.remove(0);
            proof {
                assert(t == all[i]);
                assert(rest@ =~= all.skip(i + 1));
            }
            reg.register(t);
            proof {
                assert forall|n: Seq<char>| #[trigger] sp_lookup(reg.spec_tools(), n)
                    == sp_last_named(all.take(i + 1), n) by {
                    assert(all.take(i + 1).last() == all[i]);
                    assert(all.take(i + 1).drop_last() =~= all.take(i));
                    if n == sp_tool_name(all[i]) {
                        assert(sp_lookup(reg.spec_tools(), n) == Some(all[i]));
                    } else {
                        assert(sp_lookup(reg.spec_tools(), n) == sp_lookup(before, n));
                    }
                }
            }
        }
        proof {
            assert(all.take(all.len() as int) =~= all);
        }
        reg
    }

    /// The listing of every registered tool: its name, description and
    /// input schema, in registration order.
    pub fn list(&self) -> (r: Vec<ToolMeta>)
        ensures
            r@.len() == self.spec_tools().len(),
            forall|k: int|
                0 <= k < r@.len() ==> {
                    &&& (#[trigger] r@[k]).name@ == sp_tool_name(self.spec_tools()[k])
                    &&& r@[k].description@ == sp_tool_description(self.spec_tools()[k])
                    &&& r@[k].input_schema@ == sp_tool_schema(self.spec_tools()[k])
                },
    {
        let n = self.tools.len();
        let mut out: Vec<ToolMeta> = Vec::new();
        let mut i: usize = 0;
        while i < n
            invariant
                n == self.tools@.len(),
                self.spec_tools() == self.tools@,
                i <= n,
                out@.len() == i,
                forall|k: int|
                    0 <= k < i ==> {
                        &&& (#[trigger] out@[k]).name@ == sp_tool_name(self.tools@[k])
                        &&& out@[k].description@ == sp_tool_description(self.tools@[k])
                        &&& out@[k].input_schema@ == sp_tool_schema(self.tools@[k])
                    },
            decreases n - i,
        {
            let t = &self.tools[i];
            let meta = ToolMeta {
                name: String::from_str(t.name()),
                description: String::from_str(t.description()),
                input_schema: t.input_schema(),
            };
            out.push(meta);
            i = i + 1;
        }
        out
    }

    /// Call the tool registered under `name` with `args`; an unknown
    /// name is the caller's error.
    pub fn call(&self, name: &str, args: &Json) -> (r: ToolAction)
        ensures
            r@ == sp_call_tool(self.spec_tools(), name@, args@),
    {
        proof {
            assert(self.tools@.skip(0) =~= self.tools@);
        }
        let n = self.tools.len();
        let mut i: usize = 0;
        while i < n
            invariant
                n == self.tools@.len(),
                self.spec_tools() == self.tools@,
                i <= n,
                sp_lookup(self.tools@, name@) == sp_lookup(self.tools@.skip(i as int), name@),
            decreases n - i,
        {
            proof {
                assert(self.tools@.skip(i as int).first() == self.tools@[i as int]);
                assert(self.tools@.skip(i as int).drop_first() =~= self.tools@.skip(i as int + 1));
            }
            let here = crate::text::str_eq(self.tools[i].name(), name);
            if here {
                return self.tools[i].start_call(args);
            }
            i = i + 1;
        }
        proof {
            assert(self.tools@.skip(n as int).len() == 0);
        }
        let mut msg: Vec<char> = Vec::new();
        crate::text::push_str_chars(&mut msg, "unknown tool: ");
        crate::text::push_str_chars(&mut msg, name);
        ToolAction::Reply(Err(crate::text::chars_to_string(&msg)))
    }
}

/// Replacing the tool at a position that holds a name keeps every other
/// lookup, when no earlier position holds that name.
proof fn lemma_lookup_replace(old_tools: Seq<ToolImpl>, new_tools: Seq<ToolImpl>, at: int)
    requires
        0 <= at < old_tools.len(),
        new_tools.len() == old_tools.len(),
        forall|k: int| 0 <= k < old_tools.len() && k != at ==> new_tools[k] == old_tools[k],
        sp_tool_name(new_tools[at]) == sp_tool_name(old_tools[at]),
        forall|k: int|
            0 <= k < at ==> sp_tool_name(#[trigger] old_tools[k]) != sp_tool_name(old_tools[at]),
    ensures
        sp_lookup(new_tools, sp_tool_name(new_tools[at])) == Some(new_tools[at]),
        forall|n: Seq<char>|
            n != sp_tool_name(new_tools[at]) ==> #[trigger] sp_lookup(new_tools, n) == sp_lookup(
                old_tools,
                n,
            ),
    decreases old_tools.len(),
{
    if at == 0 {
        assert forall|n: Seq<char>| n != sp_tool_name(new_tools[0]) implies #[trigger] sp_lookup(
            new_tools,
            n,
        ) == sp_lookup(old_tools, n) by {
            assert(new_tools.drop_first() =~= old_tools.drop_first());
        }
    } else {
        assert forall|k: int|
            0 <= k < old_tools.drop_first().len() && k != at - 1 implies #[trigger] new_tools.drop_first()[k]
            == old_tools.drop_first()[k] by {
            assert(new_tools.drop_first()[k] == new_tools[k + 1]);
            assert(old_tools.drop_first()[k] == old_tools[k + 1]);
        }
        assert forall|k: int| 0 <= k < at - 1 implies sp_tool_name(
            #[trigger] old_tools.drop_first()[k],
        ) != sp_tool_name(old_tools.drop_first()[at - 1]) by {
            assert(old_tools.drop_first()[k] == old_tools[k + 1]);
            assert(old_tools.drop_first()[at - 1] == old_tools[at]);
        }
        assert(new_tools.drop_first()[at - 1] == new_tools[at]);
        assert(old_tools.drop_first()[at - 1] == old_tools[at]);
        lemma_lookup_replace(old_tools.drop_first(), new_tools.drop_first(), at - 1);
        assert(new_tools.first() == old_tools.first());
        assert(sp_tool_name(old_tools[0]) != sp_tool_name(old_tools[at]));
        assert(sp_lookup(new_tools.drop_first(), sp_tool_name(new_tools[at])) == Some(
            new_tools[at],
        ));
        assert forall|n: Seq<char>| n != sp_tool_name(new_tools[at]) implies #[trigger] sp_lookup(
            new_tools,
            n,
        ) == sp_lookup(old_tools, n) by {
            assert(sp_lookup(new_tools.drop_first(), n) == sp_lookup(old_tools.drop_first(), n));
        }
    }
}

/// Appending a tool whose name is absent makes it findable and keeps
/// every other lookup.
proof fn lemma_lookup_push(old_tools: Seq<ToolImpl>, tool: ToolImpl)
    requires
        forall|k: int|
            0 <= k < old_tools.len() ==> sp_tool_name(#[trigger] old_tools[k]) != sp_tool_name(
                tool,
            ),
    ensures
        sp_lookup(old_tools.push(tool), sp_tool_name(tool)) == Some(tool),
        forall|n: Seq<char>|
            n != sp_tool_name(tool) ==> #[trigger] sp_lookup(old_tools.push(tool), n) == sp_lookup(
                old_tools,
                n,
            ),
    decreases old_tools.len(),
{
    if old_tools.len() == 0 {
        assert(old_tools.push(tool).first() == tool);
        assert forall|n: Seq<char>| n != sp_tool_name(tool) implies #[trigger] sp_lookup(
            old_tools.push(tool),
            n,
        ) == sp_lookup(old_tools, n) by {
            assert(old_tools.push(tool).drop_first() =~= Seq::<ToolImpl>::empty());
            assert(sp_lookup(old_tools.push(tool).drop_first(), n) is None);
        }
    } else {
        lemma_lookup_push(old_tools.drop_first(), tool);
        assert(old_tools.push(tool).first() == old_tools.first());
        assert(old_tools.push(tool).drop_first() =~= old_tools.drop_first().push(tool));
        assert(sp_lookup(old_tools.drop_first().push(tool), sp_tool_name(tool)) == Some(tool));
        assert forall|n: Seq<char>| n != sp_tool_name(tool) implies #[trigger] sp_lookup(
            old_tools.push(tool),
            n,
        ) == sp_lookup(old_tools, n) by {
            assert(sp_lookup(old_tools.drop_first().push(tool), n) == sp_lookup(
                old_tools.drop_first(),
                n,
            ));
        }
    }
}

/// Whether a configured base URL actually selects a remote backend: it
/// must hold something besides whitespace.
pub open spec fn sp_nonblank(s: Seq<char>) -> bool {
    !crate::json_parse::sp_all_ws_from(s, 0)
}

/// Whether a string holds anything besides whitespace.
pub fn nonblank(s: &str) -> (r: bool)
    ensures
        r == sp_nonblank(s@),
{
    let n = s.unicode_len();
    let mut i: usize = 0;
    while i < n
        invariant
            n == s@.len(),
            i <= n,
            forall|j: int| 0 <= j < i ==> crate::json_parse::sp_ws_char(s@[j]),
        decreases n - i,
    {
        let c = s.get_char(i);
        if !(c == ' ' || c == '\t' || c == '\n' || c == '\r') {
            proof {
                assert(!crate::json_parse::sp_all_ws_from(s@, 0)) by {
                    if crate::json_parse::sp_all_ws_from(s@, 0) {
                        assert(crate::json_parse::sp_ws_char(s@[i as int]));
                    }
                }
            }
            return true;
        }
        i = i + 1;
    }
    false
}

/// Build the registry from configuration: for each capability, a remote
/// backend when a base URL is configured and non-blank, the local stub
/// otherwise.  Grammar is registered first, spellcheck second.
pub fn build_registry(cfg: &AppConfig) -> (r: ToolRegistry)
    ensures
        r.wf(),
        r.spec_tools().len() == 2,
        (match cfg.grammar.base_url {
            Some(u) => if sp_nonblank(u@) {
                r.spec_tools()[0] matches ToolImpl::GrammarRemote(b) && b.base_url@ == u@
                    && b.retries == (match cfg.grammar.retries {
                    Some(k) => k,
                    None => 2u32,
                })
            } else {
                r.spec_tools()[0] is GrammarLocal
            },
            None => r.spec_tools()[0] is GrammarLocal,
        }),
        (match cfg.spell.base_url {
            Some(u) => if sp_nonblank(u@) {
                r.spec_tools()[1] matches ToolImpl::SpellRemote(b) && b.base_url@ == u@
                    && b.retries == (match cfg.spell.retries {
                    Some(k) => k,
                    None => 2u32,
                })
            } else {
                r.spec_tools()[1] is SpellLocal
            },
            None => r.spec_tools()[1] is SpellLocal,
        }),
{
    let grammar: ToolImpl = match &cfg.grammar.base_url {
        Some(u) => {
            if nonblank(u.as_str()) {
                ToolImpl::GrammarRemote(
                    GrammarRemoteBackend {
                        base_url: u.clone(),
                        retries: match cfg.grammar.retries {
                            Some(k) => k,
                            None => 2,
                        },
                    },
                )
            } else {
                ToolImpl::GrammarLocal(GrammarLocalBackend)
            }
        },
        None => ToolImpl::GrammarLocal(GrammarLocalBackend),
    };
    let spell: ToolImpl = match &cfg.spell.base_url {
        Some(u) => {
            if nonblank(u.as_str()) {
                ToolImpl::SpellRemote(
                    SpellcheckRemoteBackend {
                        base_url: u.clone(),
                        retries: match cfg.spell.retries {
                            Some(k) => k,
                            None => 2,
                        },
                    },
                )
            } else {
                ToolImpl::SpellLocal(SpellcheckLocalBackend)
            }
        },
        None => ToolImpl::SpellLocal(SpellcheckLocalBackend),
    };
    let mut tools: Vec<ToolImpl> = Vec::new();
    tools.push(grammar);
    tools.push(spell);
    proof {
        reveal_strlit("grammar.check");
        reveal_strlit("spell.check");
        assert(sp_tool_name(tools@[0]) == "grammar.check"@);
        assert(sp_tool_name(tools@[1]) == "spell.check"@);
        assert("grammar.check"@.len() == 13);
        assert("spell.check"@.len() == 11);
        assert(sp_tool_name(tools@[0]) != sp_tool_name(tools@[1]));
    }
    ToolRegistry { tools }
}

} // verus!
