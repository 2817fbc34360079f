//! The semantics a command declaration cannot carry, declared once beside it.
//!
//! A command-line declaration knows a command's path, its help, its arguments, their
//! defaults and the values an enumerated argument accepts. It does not know — and no
//! spelling can be trusted to reveal — what a command *does*: whether it writes, whether it
//! needs a terminal, what must exist before it can run, and what it used to be called.
//! Those facts are declared once, in a table beside the declaration, and every surface
//! derives from it. Nothing anywhere else restates an effect, a requirement or an alias.

use vstd::prelude::*;

use crate::command::model::{Alias, Deprecation, EffectClass, Interactivity, Requirement, Visibility};
use crate::strings::str_eq;

verus! {

/// What one command of the native command line means. Keyed by the command's path
/// without the executable's own name.
#[derive(Debug, Clone, Copy, PartialEq, Eq)]
pub struct CommandSemantics {
    /// `bench baseline update`; the empty string is the root.
    pub command: &'static str,
    /// What it does to the world.
    pub effect: EffectClass,
    /// Whether it needs a terminal.
    pub interactivity: Interactivity,
    /// Who may see it.
    pub visibility: Visibility,
    /// What must exist before it can run here.
    pub requires: &'static [Requirement],
    /// Free tags. `entry` marks a command the repository's entry banner may recommend;
    /// `diagnostic` marks one that reports on the checkout's own health.
    pub tags: &'static [&'static str],
    /// Names it also answers to, each with the reason it exists. A projection that can
    /// carry an alias carries these and invents none.
    pub aliases: &'static [(&'static str, &'static str)],
    /// What to say when it is on the way out: the replacement's path and one line.
    pub deprecated: Option<(&'static str, &'static str)>,
}

/// The aliases of a declaration, as name and reason.
pub open spec fn alias_models(s: Seq<(&'static str, &'static str)>) -> Seq<(Seq<char>, Seq<char>)> {
    s.map_values(|p: (&'static str, &'static str)| (p.0@, p.1@))
}

/// Some aliases, as name and reason.
pub open spec fn alias_values_model(s: Seq<Alias>) -> Seq<(Seq<char>, Seq<char>)> {
    s.map_values(|a: Alias| (a.name@, a.reason@))
}

impl CommandSemantics {
    /// The aliases as canonical values.
    pub fn alias_values(&self) -> (r: Vec<Alias>)
        ensures
            alias_values_model(r@) == alias_models(self.aliases@),
    {
        let mut out: Vec<Alias> = Vec::new();
        let mut i: usize = 0;
        while i < self.aliases.len()
            invariant
                i <= self.aliases@.len(),
                alias_values_model(out@) == alias_models(self.aliases@.subrange(0, i as int)),
            decreases self.aliases.len() - i,
        {
            let (name, reason) = self.aliases[i];
            let a = Alias { name: String::from_str(name), reason: String::from_str(reason) };
            let ghost prev = out@;
            out.push(a);
            assert(alias_values_model(out@) =~= alias_values_model(prev).push((name@, reason@)));
            assert(alias_models(self.aliases@.subrange(0, i + 1)) =~= alias_models(
                self.aliases@.subrange(0, i as int),
            ).push((self.aliases@[i as int].0@, self.aliases@[i as int].1@)));
            i += 1;
        }
        assert(self.aliases@.subrange(0, self.aliases@.len() as int) =~= self.aliases@);
        out
    }

    /// The deprecation as a canonical value, with the replacement resolved by the caller.
    pub fn deprecation_note(&self) -> (r: Option<Deprecation>)
        ensures
            match self.deprecated {
                Some(d) => r matches Some(x) && x.replaced_by is None && x.note@ == d.1@,
                None => r is None,
            },
    {
        match self.deprecated {
            Some((_, note)) => Some(Deprecation { replaced_by: None, note: String::from_str(note) }),
            None => None,
        }
    }

    /// The path of the command that replaces this one, when it is deprecated.
    pub fn replacement_path(&self) -> (r: Option<&'static str>)
        ensures
            match self.deprecated {
                Some(d) => r == Some(d.0),
                None => r is None,
            },
    {
        match self.deprecated {
            Some((path, _)) => Some(path),
            None => None,
        }
    }

    /// The requirements, never empty: a declaration that names none needs nothing.
    pub fn requirements(&self) -> (r: Vec<Requirement>)
        ensures
            self.requires@.len() == 0 ==> r@ == seq![Requirement::Always],
            self.requires@.len() > 0 ==> r@ == self.requires@,
    {
        if self.requires.len() == 0 {
            vec![Requirement::Always]
        } else {
            let mut out: Vec<Requirement> = Vec::new();
            let mut i: usize = 0;
            while i < self.requires.len()
                invariant
                    i <= self.requires@.len(),
                    out@ == self.requires@.subrange(0, i as int),
                decreases self.requires.len() - i,
            {
                out.push(self.requires[i]);
                assert(out@ =~= self.requires@.subrange(0, i + 1));
                i += 1;
            }
            assert(self.requires@.subrange(0, self.requires@.len() as int) =~= self.requires@);
            out
        }
    }
}

/// The position of the first declaration of a command path, or the table's length.
pub open spec fn declared_at(table: Seq<CommandSemantics>, command: Seq<char>) -> int
    decreases table.len(),
{
    if table.len() == 0 {
        0
    } else if table[0].command@ == command {
        0
    } else {
        1 + declared_at(table.drop_first(), command)
    }
}

proof fn lemma_declared_at(table: Seq<CommandSemantics>, command: Seq<char>, k: int)
    requires
        0 <= k <= table.len(),
        forall|j: int| 0 <= j < k ==> (#[trigger] table[j]).command@ != command,
        k < table.len() ==> table[k].command@ == command,
    ensures
        declared_at(table, command) == k,
    decreases k,
{
    if k > 0 {
        let t = table.drop_first();
        assert forall|j: int| 0 <= j < k - 1 implies (#[trigger] t[j]).command@ != command by {
            assert(t[j] == table[j + 1]);
        }
        if k < table.len() {
            assert(t[k - 1] == table[k]);
        }
        assert(table[0].command@ != command);
        lemma_declared_at(t, command, k - 1);
    }
}

/// The semantics of one command path, from the declarations: the first entry for it.
pub fn lookup<'a>(table: &'a [CommandSemantics], command: &str) -> (r: Option<&'a CommandSemantics>)
    ensures
        declared_at(table@, command@) < table@.len() ==> r == Some(
            &table@[declared_at(table@, command@)],
        ),
        declared_at(table@, command@) >= table@.len() ==> r is None,
{
    let mut i: usize = 0;
    while i < table.len()
        invariant
            i <= table@.len(),
            forall|j: int| 0 <= j < i ==> (#[trigger] table@[j]).command@ != command@,
        decreases table.len() - i,
    {
        if str_eq(table[i].command, command) {
            proof {
                lemma_declared_at(table@, command@, i as int);
            }
            return Some(&table[i]);
        }
        i += 1;
    }
    proof {
        lemma_declared_at(table@, command@, table@.len() as int);
    }
    None
}

} // verus!
