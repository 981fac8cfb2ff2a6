//! The manual's list of slash commands.

use vstd::prelude::*;

use crate::slash;
use crate::slash::CommandSpec;

verus! {

/// The first `n` aliases with their slashes, separated by commas.
pub open spec fn alias_list(aliases: Seq<&'static str>, n: int) -> Seq<char>
    decreases n,
{
    if n <= 0 {
        Seq::empty()
    } else {
        alias_list(aliases, n - 1) + (if n == 1 {
            ""@
        } else {
            ", "@
        }) + "/"@ + aliases[n - 1]@
    }
}

/// What the manual says of a command: its description, its usage, and the
/// names it also goes by.
pub open spec fn command_text(spec: CommandSpec) -> Seq<char> {
    spec.description@ + (match spec.usage {
        Some(usage) => " "@ + usage@ + "."@,
        None => ""@,
    }) + (if spec.aliases@.len() > 0 {
        " (or "@ + alias_list(spec.aliases@, spec.aliases@.len() as int) + ")."@
    } else {
        ""@
    })
}

/// The first `n` aliases with their slashes, separated by commas.
fn list_aliases(aliases: &Vec<&'static str>) -> (r: String)
    ensures
        r@ == alias_list(aliases@, aliases@.len() as int),
{
    let mut r = "".to_owned();
    proof {
        reveal_strlit("");
    }
    let mut i: usize = 0;
    assert(r@ =~= alias_list(aliases@, 0));
    while i < aliases.len()
        invariant
            i <= aliases@.len(),
            r@ == alias_list(aliases@, i as int),
        decreases aliases@.len() - i,
    {
        if i == 0 {
            r.append("");
        } else {
            r.append(", ");
        }
        r.append("/");
        r.append(aliases[i]);
        i = i + 1;
    }
    r
}

/// A command's row in the manual: the command, and what is said of it.
pub fn command_row(spec: &CommandSpec) -> (r: (String, String))
    ensures
        r.0@ == "/"@ + spec.name@,
        r.1@ == command_text(*spec),
{
    let mut key = "/".to_owned();
    key.append(spec.name);
    let mut text = spec.description.to_owned();
    proof {
        reveal_strlit("");
    }
    match spec.usage {
        Some(usage) => {
            text.append(" ");
            text.append(usage);
            text.append(".");
        },
        None => {},
    }
    if spec.aliases.len() > 0 {
        let aliases = list_aliases(&spec.aliases);
        text.append(" (or ");
        text.append(aliases.as_str());
        text.append(").");
    }
    assert(text@ =~= command_text(*spec));
    (key, text)
}

/// Whether a row describes a command.
pub open spec fn row_of(row: (String, String), c: slash::Command) -> bool {
    exists|spec: CommandSpec| #[trigger]
        slash::describes(spec, c) && row.0@ == "/"@ + spec.name@ && row.1@ == command_text(spec)
}

/// The rows of the commands that the composer recognises, in their order.
pub fn command_rows() -> (r: Vec<(String, String)>)
    ensures
        r@.len() == slash::catalog().len(),
        forall|k: int| 0 <= k < r@.len() ==> row_of(#[trigger] r@[k], slash::catalog()[k]),
{
    let specs = slash::commands();
    let mut r: Vec<(String, String)> = Vec::new();
    let mut i: usize = 0;
    while i < specs.len()
        invariant
            i <= specs@.len(),
            specs@.len() == slash::catalog().len(),
            forall|k: int|
                0 <= k < specs@.len() ==> slash::describes(#[trigger] specs@[k], slash::catalog()[k]),
            r@.len() == i,
            forall|k: int| 0 <= k < i ==> row_of(#[trigger] r@[k], slash::catalog()[k]),
        decreases specs@.len() - i,
    {
        let row = command_row(&specs[i]);
        assert(slash::describes(specs@[i as int], slash::catalog()[i as int]));
        assert(row_of(row, slash::catalog()[i as int]));
        r.push(row);
        i = i + 1;
    }
    r
}

// ---------------------------------------------------------------------------
// Laws.
// ---------------------------------------------------------------------------
/// A command has one row: what the manual says of it is settled by the
/// catalog alone.
pub proof fn law_a_command_has_one_description(
    a: (String, String),
    b: (String, String),
    c: slash::Command,
)
    requires
        row_of(a, c),
        row_of(b, c),
    ensures
        a.0@ == b.0@,
        a.1@ == b.1@,
{
    let x = choose|spec: CommandSpec| #[trigger]
        slash::describes(spec, c) && a.0@ == "/"@ + spec.name@ && a.1@ == command_text(spec);
    let y = choose|spec: CommandSpec| #[trigger]
        slash::describes(spec, c) && b.0@ == "/"@ + spec.name@ && b.1@ == command_text(spec);
    lemma_alias_lists_agree(x.aliases@, y.aliases@, x.aliases@.len() as int);
}

/// Lists of the same aliases read the same.
proof fn lemma_alias_lists_agree(a: Seq<&'static str>, b: Seq<&'static str>, n: int)
    requires
        n <= a.len(),
        n <= b.len(),
        forall|k: int| 0 <= k < n ==> (#[trigger] a[k])@ == b[k]@,
    ensures
        alias_list(a, n) == alias_list(b, n),
    decreases n,
{
    if n > 0 {
        lemma_alias_lists_agree(a, b, n - 1);
        assert(a[n - 1]@ == b[n - 1]@);
    }
}

} // verus!
