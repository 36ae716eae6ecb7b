//! A registry of named commands: each command is a function from its
//! arguments to a result message.  Executing a name calls the function
//! registered under it.

use vstd::prelude::*;
use crate::text::{chars_eq_str_string, str_to_chars, chars_to_string};

verus! {

/// Index of the first entry with the given name, or the length when
/// there is none.
pub open spec fn index_of_cmd<F>(entries: Seq<(String, F)>, name: Seq<char>) -> int
    decreases entries.len(),
{
    if entries.len() == 0 {
        0
    } else if entries[0].0@ == name {
        0
    } else {
        1 + index_of_cmd(entries.drop_first(), name)
    }
}

/// Whether some entry carries the given name.
pub open spec fn has_cmd<F>(entries: Seq<(String, F)>, name: Seq<char>) -> bool {
    exists|i: int| 0 <= i < entries.len() && (#[trigger] entries[i]).0@ == name
}

/// The registry, generic over the command implementation type (any
/// function from arguments to a result message).
pub struct CommandExecutor<F: Fn(&[&str]) -> Result<String, String>> {
    commands: Vec<(String, F)>,
}

impl<F: Fn(&[&str]) -> Result<String, String>> CommandExecutor<F> {
    pub closed spec fn entries(self) -> Seq<(String, F)> {
        self.commands@
    }

    /// Every registered function can be called on any arguments, and no
    /// name is bound twice (registration replaces), so the entry `execute`
    /// finds is the most recent registration of the name.
    pub open spec fn wf(self) -> bool {
        &&& forall|i: int, args: &[&str]| 0 <= i < self.entries().len()
            ==> #[trigger] call_requires((self.entries()[i]).1, (args,))
        &&& forall|i: int, j: int| 0 <= i < j < self.entries().len()
            ==> (#[trigger] self.entries()[i]).0@ != (#[trigger] self.entries()[j]).0@
    }

    /// An executor with the default command set, which is empty.
    pub fn new() -> (e: CommandExecutor<F>)
        ensures
            e.wf(),
            e.entries().len() == 0,
    {
        let mut executor = CommandExecutor { commands: Vec::new() };
        executor.register_default_commands();
        executor
    }

    /// The default command set: nothing is built in; every command comes
    /// through `register_command`.
    fn register_default_commands(&mut self)
        ensures
            final(self).entries() == old(self).entries(),
    {
    }

    /// Registers a named command; registering a name again replaces the
    /// earlier binding, so the most recent registration wins.  Only a
    /// function without preconditions can be registered: the executor
    /// must be able to call it on any arguments.
    pub fn register_command(&mut self, name: &str, func: F)
        requires
            forall|args: &[&str]| #[trigger] call_requires(func, (args,)),
        ensures
            has_cmd(old(self).entries(), name@) ==> ({
                let k = index_of_cmd(old(self).entries(), name@);
                &&& final(self).entries().len() == old(self).entries().len()
                &&& forall|j: int| 0 <= j < old(self).entries().len() && j != k
                    ==> #[trigger] final(self).entries()[j] == old(self).entries()[j]
                &&& final(self).entries()[k].0@ == name@
                &&& final(self).entries()[k].1 == func
            }),
            !has_cmd(old(self).entries(), name@) ==> ({
                &&& final(self).entries().len() == old(self).entries().len() + 1
                &&& forall|j: int| 0 <= j < old(self).entries().len()
                    ==> #[trigger] final(self).entries()[j] == old(self).entries()[j]
                &&& final(self).entries().last().0@ == name@
                &&& final(self).entries().last().1 == func
            }),
            old(self).wf() ==> final(self).wf(),
    {
        let ghost entries0 = self.commands@;
        proof {
            lemma_index_of_cmd_nonneg(entries0, name@);
        }
        let mut i: usize = 0;
        while i < self.commands.len()
            invariant
                i <= self.commands@.len(),
                self.commands@ == entries0,
                entries0 == old(self).entries(),
                forall|args: &[&str]| #[trigger] call_requires(func, (args,)),
                forall|j: int| 0 <= j < i ==> (#[trigger] entries0[j]).0@ != name@,
                index_of_cmd(entries0, name@) >= i,
            decreases self.commands@.len() - i,
        {
            let hit = chars_eq_str_string(&self.commands[i].0, name);
            if hit {
                proof {
                    lemma_index_of_cmd_found(entries0, name@, i as int);
                }
                self.commands.set(i, (name.to_owned(), func));
                proof {
                    if old(self).wf() {
                        assert forall|a: int, args: &[&str]|
                            0 <= a < self.entries().len()
                            implies #[trigger] call_requires((self.entries()[a]).1, (args,))
                            by {
                            if a != i {
                                assert(self.entries()[a] == entries0[a]);
                            }
                        }
                        assert forall|a: int, b: int| 0 <= a < b < self.entries().len()
                            implies (#[trigger] self.entries()[a]).0@
                                != (#[trigger] self.entries()[b]).0@ by {
                            assert(self.entries()[a].0@ == entries0[a].0@);
                            assert(self.entries()[b].0@ == entries0[b].0@);
                        }
                        assert(self.wf());
                    }
                }
                return;
            }
            proof {
                lemma_index_of_cmd_step(entries0, name@, i as int);
            }
            i += 1;
        }
        proof {
            if has_cmd(entries0, name@) {
                let j = choose|j: int|
                    0 <= j < entries0.len() && (#[trigger] entries0[j]).0@ == name@;
                assert(false);
            }
        }
        self.commands.push((name.to_owned(), func));
        proof {
            if old(self).wf() {
                assert forall|a: int, args: &[&str]| 0 <= a < self.entries().len()
                    implies #[trigger] call_requires((self.entries()[a]).1, (args,)) by {
                    if a < entries0.len() {
                        assert(self.entries()[a] == entries0[a]);
                    }
                }
                assert forall|a: int, b: int| 0 <= a < b < self.entries().len()
                    implies (#[trigger] self.entries()[a]).0@
                        != (#[trigger] self.entries()[b]).0@ by {
                    if b == entries0.len() {
                        assert(self.entries()[a] == entries0[a]);
                        assert(!((entries0[a]).0@ == name@));
                    }
                }
                assert(self.wf());
            }
        }
    }

    /// Runs the command currently registered under `name` (the most
    /// recent registration of it) on the arguments and returns what it
    /// returned; an unknown name is an error naming it.
    pub fn execute(&self, name: &str, args: &[&str]) -> (r: Result<String, String>)
        requires
            self.wf(),
        ensures
            !has_cmd(self.entries(), name@) ==> (r matches Err(m)
                && m@ == "Unknown command: "@ + name@),
            has_cmd(self.entries(), name@) ==> call_ensures(
                (self.entries()[index_of_cmd(self.entries(), name@)]).1,
                (args,),
                r,
            ),
    {
        let ghost entries0 = self.commands@;
        proof {
            lemma_index_of_cmd_nonneg(entries0, name@);
        }
        let mut i: usize = 0;
        while i < self.commands.len()
            invariant
                i <= self.commands@.len(),
                self.commands@ == entries0,
                self.wf(),
                entries0 == self.entries(),
                forall|j: int| 0 <= j < i ==> (#[trigger] entries0[j]).0@ != name@,
                index_of_cmd(entries0, name@) >= i,
            decreases self.commands@.len() - i,
        {
            let hit = chars_eq_str_string(&self.commands[i].0, name);
            if hit {
                proof {
                    lemma_index_of_cmd_found(entries0, name@, i as int);
                }
                let cmd = &self.commands[i].1;
                return cmd(args);
            }
            proof {
                lemma_index_of_cmd_step(entries0, name@, i as int);
            }
            i += 1;
        }
        proof {
            if has_cmd(entries0, name@) {
                let j = choose|j: int|
                    0 <= j < entries0.len() && (#[trigger] entries0[j]).0@ == name@;
                assert(false);
            }
        }
        let mut message = str_to_chars("Unknown command: ");
        let ghost prefix = message@;
        let name_chars = str_to_chars(name);
        let mut k: usize = 0;
        while k < name_chars.len()
            invariant
                k <= name_chars@.len(),
                name_chars@ == name@,
                message@ == prefix + name@.subrange(0, k as int),
            decreases name_chars@.len() - k,
        {
            message.push(name_chars[k]);
            proof {
                assert(message@ =~= prefix + name@.subrange(0, k as int + 1));
            }
            k += 1;
        }
        proof {
            assert(message@ =~= "Unknown command: "@ + name@);
        }
        Err(chars_to_string(&message))
    }
}

proof fn lemma_index_of_cmd_nonneg<F>(entries: Seq<(String, F)>, name: Seq<char>)
    ensures
        index_of_cmd(entries, name) >= 0,
    decreases entries.len(),
{
    if entries.len() > 0 && entries[0].0@ != name {
        lemma_index_of_cmd_nonneg(entries.drop_first(), name);
    }
}

proof fn lemma_index_of_cmd_step<F>(entries: Seq<(String, F)>, name: Seq<char>, i: int)
    requires
        0 <= i < entries.len(),
        forall|j: int| 0 <= j <= i ==> (#[trigger] entries[j]).0@ != name,
        index_of_cmd(entries, name) >= i,
    ensures
        index_of_cmd(entries, name) >= i + 1,
    decreases i,
{
    if i == 0 {
        lemma_index_of_cmd_nonneg(entries.drop_first(), name);
    } else {
        let tail = entries.drop_first();
        assert(forall|j: int| 0 <= j <= i - 1 ==> (#[trigger] tail[j]).0@ != name) by {
            assert(forall|j: int| 0 <= j < tail.len() ==> tail[j] == entries[j + 1]);
        }
        lemma_index_of_cmd_step(tail, name, i - 1);
    }
}

proof fn lemma_index_of_cmd_found<F>(entries: Seq<(String, F)>, name: Seq<char>, i: int)
    requires
        0 <= i < entries.len(),
        entries[i].0@ == name,
        forall|j: int| 0 <= j < i ==> (#[trigger] entries[j]).0@ != name,
    ensures
        index_of_cmd(entries, name) == i,
        has_cmd(entries, name),
    decreases i,
{
    if i == 0 {
    } else {
        let tail = entries.drop_first();
        assert(forall|j: int| 0 <= j < tail.len() ==> tail[j] == entries[j + 1]);
        lemma_index_of_cmd_found(tail, name, i - 1);
    }
}

impl<F: Fn(&[&str]) -> Result<String, String>> Default for CommandExecutor<F> {
    fn default() -> (e: CommandExecutor<F>)
        ensures
            e.wf(),
            e.entries().len() == 0,
    {
        CommandExecutor::new()
    }
}

} // verus!
