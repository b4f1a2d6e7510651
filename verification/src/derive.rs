//! What `#[derive(BotCommand)]` writes for a command struct, and what the handler generator
//! writes for each method of serenity's `EventHandler`.
use vstd::prelude::*;
use quote::ToTokens;
use syn::{parse_str, File, FnArg, Item, TraitItem};
use crate::text::{nat_text, push_str, push_u64, same_text};

verus! {

/// The type a field must have to receive the bot's environment, as its tokens are written.
pub const ENV_TYPE: &'static str = "Arc < BotEnv >";

/// A field of the struct the derive is for.
pub struct FieldShape {
    /// The field's name; none in a tuple struct.
    pub ident: Option<String>,
    /// The tokens of the field's type, where the type is a path.
    pub type_path: Option<String>,
}

/// Whether a field takes the bot's environment.
pub open spec fn takes_env(f: FieldShape) -> bool {
    f.type_path matches Some(t) && t@ == ENV_TYPE@
}

/// The index of the first field that takes the bot's environment.
pub open spec fn env_field(fields: Seq<FieldShape>) -> Option<int> {
    if exists|i: int| 0 <= i < fields.len() && takes_env(#[trigger] fields[i]) {
        Some(
            choose|i: int|
                0 <= i < fields.len() && takes_env(#[trigger] fields[i]) && forall|j: int|
                    0 <= j < i ==> !takes_env(#[trigger] fields[j]),
        )
    } else {
        None
    }
}

/// Finds the first field that takes the bot's environment.
pub fn find_env_field(fields: &Vec<FieldShape>) -> (res: Option<usize>)
    ensures
        match res {
            Some(i) => i < fields@.len() && env_field(fields@) == Some(i as int),
            None => env_field(fields@) is None,
        },
{
    let mut i: usize = 0;
    while i < fields.len()
        invariant
            i <= fields@.len(),
            forall|j: int| 0 <= j < i ==> !takes_env(#[trigger] fields@[j]),
        decreases fields@.len() - i,
    {
        let hit = match &fields[i].type_path {
            Some(t) => same_text(t.as_str(), ENV_TYPE),
            None => false,
        };
        if hit {
            proof {
                let k = choose|k: int|
                    0 <= k < fields@.len() && takes_env(#[trigger] fields@[k]) && forall|j: int|
                        0 <= j < k ==> !takes_env(#[trigger] fields@[j]);
                if k > i {
                    assert(!takes_env(fields@[i as int]));
                }
                assert(k == i);
            }
            return Some(i);
        }
        i = i + 1;
    }
    None
}

/// The impl the derive writes for struct `name`: `new` stores the environment in the field
/// `field` where there is one, and ignores it otherwise.
pub open spec fn impl_text(name: Seq<char>, field: Option<Seq<char>>) -> Seq<char> {
    match field {
        Some(f) => "impl crate::commands::BotCommand for "@ + name + " {\n"@
            + "  #[cfg_attr(feature = \"cargo-clippy\", allow(redundant_field_names))]\n"@
            + "  fn new(env: Arc<crate::bot::BotEnv>) -> Self {\n"@ + "    "@ + name + " { "@ + f
            + ": env }\n"@ + "  }\n"@ + "}\n"@,
        None => "impl crate::commands::BotCommand for "@ + name + " {\n"@
            + "  fn new(_: Arc<crate::bot::BotEnv>) -> Self {\n"@ + "    "@ + name + "\n"@
            + "  }\n"@ + "}\n"@,
    }
}

/// Whether `pat` occurs in `s`.
pub open spec fn contains_text(s: Seq<char>, pat: Seq<char>) -> bool {
    exists|a: int| 0 <= a && a + pat.len() <= s.len() && #[trigger] s.subrange(a, a + pat.len()) == pat
}

/// What `#[derive(BotCommand)]` writes for struct `name` with these fields. The field that
/// takes the environment must have a name: a tuple struct cannot take it.
pub fn impl_bot_command(name: &str, fields: &Vec<FieldShape>) -> (code: String)
    requires
        env_field(fields@) matches Some(k) ==> fields@[k].ident is Some,
    ensures
        code@ == impl_text(
            name@,
            match env_field(fields@) {
                Some(k) => Some(fields@[k].ident->0@),
                None => None,
            },
        ),
        forall|k: int|
            0 <= k < fields@.len() && takes_env(#[trigger] fields@[k]) && (forall|j: int|
                0 <= j < k ==> !takes_env(#[trigger] fields@[j])) ==> contains_text(
                code@,
                "    "@ + name@ + " { "@ + fields@[k].ident->0@ + ": env }\n"@,
            ),
{
    proof {
        assert forall|k: int|
            0 <= k < fields@.len() && takes_env(#[trigger] fields@[k]) && (forall|j: int|
                0 <= j < k ==> !takes_env(#[trigger] fields@[j])) implies contains_text(
                impl_text(name@, Some(fields@[k].ident->0@)),
                "    "@ + name@ + " { "@ + fields@[k].ident->0@ + ": env }\n"@,
            ) by {
            let f = fields@[k].ident->0@;
            let pre = "impl crate::commands::BotCommand for "@ + name@ + " {\n"@
                + "  #[cfg_attr(feature = \"cargo-clippy\", allow(redundant_field_names))]\n"@
                + "  fn new(env: Arc<crate::bot::BotEnv>) -> Self {\n"@;
            let pat = "    "@ + name@ + " { "@ + f + ": env }\n"@;
            let post = "  }\n"@ + "}\n"@;
            let t = impl_text(name@, Some(f));
            assert(t =~= pre + pat + post);
            assert(t.subrange(pre.len() as int, (pre.len() + pat.len()) as int) =~= pat);
        }
        if exists|k: int| 0 <= k < fields@.len() && takes_env(#[trigger] fields@[k]) {
            let k = choose|k: int|
                0 <= k < fields@.len() && takes_env(#[trigger] fields@[k]) && forall|j: int|
                    0 <= j < k ==> !takes_env(#[trigger] fields@[j]);
            assert forall|m: int|
                0 <= m < fields@.len() && takes_env(#[trigger] fields@[m]) && (forall|j: int|
                    0 <= j < m ==> !takes_env(#[trigger] fields@[j])) implies m == k by {
                if m < k {
                    assert(!takes_env(fields@[m]));
                } else if m > k {
                    assert(!takes_env(fields@[k]));
                }
            }
        }
    }
    let mut code = String::new();
    push_str(&mut code, "impl crate::commands::BotCommand for ");
    push_str(&mut code, name);
    push_str(&mut code, " {\n");
    match find_env_field(fields) {
        Some(i) => {
            let ident = match &fields[i].ident {
                Some(id) => id,
                None => {
                    assert(false);
                    return code;
                },
            };
            push_str(&mut code, "  #[cfg_attr(feature = \"cargo-clippy\", allow(redundant_field_names))]\n");
            push_str(&mut code, "  fn new(env: Arc<crate::bot::BotEnv>) -> Self {\n");
            push_str(&mut code, "    ");
            push_str(&mut code, name);
            push_str(&mut code, " { ");
            push_str(&mut code, ident.as_str());
            push_str(&mut code, ": env }\n");
        },
        None => {
            push_str(&mut code, "  fn new(_: Arc<crate::bot::BotEnv>) -> Self {\n");
            push_str(&mut code, "    ");
            push_str(&mut code, name);
            push_str(&mut code, "\n");
        },
    }
    push_str(&mut code, "  }\n");
    push_str(&mut code, "}\n");
    code
}

/// The attribute of `EventHandler` methods that exist only without the cache, as proc-macro2
/// writes its tokens: a space after each token but inside brackets and parentheses.
pub const NO_CACHE_ATTR: &'static str = "# [cfg (not (feature = \"cache\"))]";

/// Whether a method with these attributes, as their tokens are written, is left out: those
/// that exist only without the cache are.
pub fn skips_method(attrs: &Vec<String>) -> (res: bool)
    ensures
        res == exists|k: int| 0 <= k < attrs@.len() && (#[trigger] attrs@[k])@ == NO_CACHE_ATTR@,
{
    let mut i: usize = 0;
    while i < attrs.len()
        invariant
            i <= attrs@.len(),
            forall|k: int| 0 <= k < i ==> (#[trigger] attrs@[k])@ != NO_CACHE_ATTR@,
        decreases attrs@.len() - i,
    {
        if same_text(attrs[i].as_str(), NO_CACHE_ATTR) {
            return true;
        }
        i = i + 1;
    }
    false
}

/// The parameters of a handler line, for the first `n` arguments: a typed argument at index
/// `i` becomes `param{i}: {type}`, followed by `, ` unless it is the last argument; other
/// arguments (the receiver) are left out.
pub open spec fn handler_params(args: Seq<Option<Seq<char>>>, n: int) -> Seq<char>
    decreases n,
{
    if n <= 0 {
        Seq::empty()
    } else {
        let i = n - 1;
        let before = handler_params(args, i);
        match args[i] {
            Some(t) => before + "param"@ + nat_text(i as nat) + ": "@ + t + if i != args.len() - 1 {
                ", "@
            } else {
                Seq::empty()
            },
            None => before,
        }
    }
}

/// The line the handler generator writes for method `method` with these arguments (the
/// tokens of each typed argument's type, none for the receiver).
pub open spec fn handler_line(method: Seq<char>, args: Seq<Option<Seq<char>>>) -> Seq<char> {
    "handler!("@ + method + ", "@ + handler_params(args, args.len() as int) + ");"@
}

/// The line the handler generator writes for a method.
pub fn write_handler_line(method: &str, args: &Vec<Option<String>>) -> (line: String)
    ensures
        line@ == handler_line(
            method@,
            args@.map_values(|a: Option<String>| match a {
                Some(t) => Some(t@),
                None => None,
            }),
        ),
{
    let ghost av = args@.map_values(|a: Option<String>| match a {
        Some(t) => Some(t@),
        None => None,
    });
    let mut line = String::new();
    push_str(&mut line, "handler!(");
    push_str(&mut line, method);
    push_str(&mut line, ", ");
    let ghost head = line@;
    let n = args.len();
    let mut i: usize = 0;
    proof {
        reveal_strlit("");
    }
    while i < n
        invariant
            i <= n,
            n == args@.len(),
            av.len() == n,
            forall|k: int| 0 <= k < n ==> #[trigger] av[k] == match args@[k] {
                Some(t) => Some(t@),
                None => None,
            },
            line@ == head + handler_params(av, i as int),
        decreases n - i,
    {
        match &args[i] {
            Some(t) => {
                push_str(&mut line, "param");
                push_u64(&mut line, i as u64);
                push_str(&mut line, ": ");
                push_str(&mut line, t.as_str());
                if i != n - 1 {
                    push_str(&mut line, ", ");
                }
            },
            None => {},
        }
        i = i + 1;
    }
    push_str(&mut line, ");");
    line
}

/// A method of a trait, as the handler generator reads it.
pub struct MethodShape {
    pub name: String,
    /// The tokens of each attribute.
    pub attrs: Vec<String>,
    /// The tokens of each typed argument's type; none for the receiver.
    pub args: Vec<Option<String>>,
}

/// A trait, as the handler generator reads it.
pub struct TraitShape {
    pub name: String,
    /// Its items, in order: the methods, and nothing for the other items.
    pub methods: Vec<Option<MethodShape>>,
}

/// A method as values.
pub struct MethodValue {
    pub name: Seq<char>,
    pub attrs: Seq<Seq<char>>,
    pub args: Seq<Option<Seq<char>>>,
}

/// A trait as values.
pub struct TraitValue {
    pub name: Seq<char>,
    pub methods: Seq<Option<MethodValue>>,
}

/// The characters of an optional string.
pub open spec fn opt_view(o: Option<String>) -> Option<Seq<char>> {
    match o {
        Some(t) => Some(t@),
        None => None,
    }
}

impl View for MethodShape {
    type V = MethodValue;

    open spec fn view(&self) -> MethodValue {
        MethodValue {
            name: self.name@,
            attrs: self.attrs@.map_values(|a: String| a@),
            args: self.args@.map_values(|a: Option<String>| opt_view(a)),
        }
    }
}

impl View for TraitShape {
    type V = TraitValue;

    open spec fn view(&self) -> TraitValue {
        TraitValue {
            name: self.name@,
            methods: self.methods@.map_values(
                |m: Option<MethodShape>|
                    match m {
                        Some(x) => Some(x@),
                        None => None,
                    },
            ),
        }
    }
}

/// The items of a source file as `syn` reads them: for each item in order, the trait it
/// declares, or nothing for other items; nothing at all where the text is no Rust file.
pub uninterp spec fn parsed_items(content: Seq<char>) -> Option<Seq<Option<TraitValue>>>;

/// The items of a parsed file as values.
pub open spec fn item_values(res: Option<Vec<Option<TraitShape>>>) -> Option<Seq<Option<TraitValue>>> {
    match res {
        Some(v) => Some(
            v@.map_values(
                |t: Option<TraitShape>|
                    match t {
                        Some(x) => Some(x@),
                        None => None,
                    },
            ),
        ),
        None => None,
    }
}

/// `syn::parse_str::<syn::File>`, with each trait item written as the tokens of its name,
/// attributes and argument types: the result is named by `parsed_items` and depends on the
/// text alone.
#[verifier::external_body]
fn parse_items(content: &str) -> (res: Option<Vec<Option<TraitShape>>>)
    ensures
        item_values(res) == parsed_items(content@),
{
    Some(parse_str::<File>(content).ok()?.items.iter().map(|item| match item {
        Item::Trait(t) => Some(TraitShape { name: t.ident.to_string(), methods: t.items.iter().map(|ti| match ti {
            TraitItem::Method(m) => Some(MethodShape { name: m.sig.ident.to_string(),
                attrs: m.attrs.iter().map(|a| a.to_token_stream().to_string()).collect(),
                args: m.sig.inputs.iter().map(|a| match a {
                    FnArg::Typed(c) => Some(c.ty.to_token_stream().to_string()),
                    _ => None
                }).collect() }),
            _ => None
        }).collect() }),
        _ => None
    }).collect())
}

/// Whether a method has the attribute of methods that exist only without the cache.
pub open spec fn no_cache(m: MethodValue) -> bool {
    exists|k: int| 0 <= k < m.attrs.len() && (#[trigger] m.attrs[k]) == NO_CACHE_ATTR@
}

/// The handler lines for the first `n` items of a trait: one for each method that exists
/// with the cache.
pub open spec fn method_lines(ms: Seq<Option<MethodValue>>, n: int) -> Seq<Seq<char>>
    decreases n,
{
    if n <= 0 {
        Seq::empty()
    } else {
        let before = method_lines(ms, n - 1);
        match ms[n - 1] {
            Some(m) => if no_cache(m) {
                before
            } else {
                before.push(handler_line(m.name, m.args))
            },
            None => before,
        }
    }
}

/// The handler lines for the first `n` items of a file: those of each trait named
/// `EventHandler`, in order.
pub open spec fn event_handler_lines(items: Seq<Option<TraitValue>>, n: int) -> Seq<Seq<char>>
    decreases n,
{
    if n <= 0 {
        Seq::empty()
    } else {
        let before = event_handler_lines(items, n - 1);
        match items[n - 1] {
            Some(t) => if t.name == "EventHandler"@ {
                before + method_lines(t.methods, t.methods.len() as int)
            } else {
                before
            },
            None => before,
        }
    }
}

/// The lines the handler generator writes for a source file: a `handler!` line for each
/// method of serenity's `EventHandler` that exists with the cache; nothing where the text is
/// no Rust file.
pub fn handler_lines(content: &str) -> (res: Option<Vec<String>>)
    ensures
        match parsed_items(content@) {
            None => res is None,
            Some(items) => res matches Some(v) && crate::text::views(v@) == event_handler_lines(
                items,
                items.len() as int,
            ),
        },
{
    let items = match parse_items(content) {
        Some(items) => items,
        None => return None,
    };
    let ghost iv = item_values(Some(items))->0;
    let mut lines: Vec<String> = Vec::new();
    let mut i: usize = 0;
    while i < items.len()
        invariant
            i <= items@.len(),
            iv == item_values(Some(items))->0,
            iv.len() == items@.len(),
            crate::text::views(lines@) == event_handler_lines(iv, i as int),
        decreases items@.len() - i,
    {
        assert(iv[i as int] == match items@[i as int] {
            Some(x) => Some(x@),
            None => None::<TraitValue>,
        });
        if let Some(t) = &items[i] {
            if same_text(t.name.as_str(), "EventHandler") {
                let ghost tv = t@;
                let ghost before = crate::text::views(lines@);
                let mut j: usize = 0;
                while j < t.methods.len()
                    invariant
                        j <= t.methods@.len(),
                        tv == t@,
                        tv.methods.len() == t.methods@.len(),
                        crate::text::views(lines@) == before + method_lines(tv.methods, j as int),
                    decreases t.methods@.len() - j,
                {
                    assert(tv.methods[j as int] == match t.methods@[j as int] {
                        Some(x) => Some(x@),
                        None => None::<MethodValue>,
                    });
                    if let Some(m) = &t.methods[j] {
                        if !skips_method(&m.attrs) {
                            let line = write_handler_line(m.name.as_str(), &m.args);
                            let ghost old_lines = crate::text::views(lines@);
                            lines.push(line);
                            assert(crate::text::views(lines@) == old_lines.push(line@));
                        }
                        proof {
                            let mv = m@;
                            assert(mv.args == m.args@.map_values(|a: Option<String>| match a {
                                Some(t) => Some(t@),
                                None => None,
                            }));
                            assert(no_cache(mv) == exists|k: int| 0 <= k < m.attrs@.len() && (#[trigger] m.attrs@[k])@ == NO_CACHE_ATTR@) by {
                                if no_cache(mv) {
                                    let k = choose|k: int| 0 <= k < mv.attrs.len() && (#[trigger] mv.attrs[k]) == NO_CACHE_ATTR@;
                                    assert(m.attrs@[k]@ == mv.attrs[k]);
                                }
                                if exists|k: int| 0 <= k < m.attrs@.len() && (#[trigger] m.attrs@[k])@ == NO_CACHE_ATTR@ {
                                    let k = choose|k: int| 0 <= k < m.attrs@.len() && (#[trigger] m.attrs@[k])@ == NO_CACHE_ATTR@;
                                    assert(mv.attrs[k] == m.attrs@[k]@);
                                }
                            }
                        }
                    }
                    j = j + 1;
                }
            }
        }
        i = i + 1;
    }
    Some(lines)
}

} // verus!
