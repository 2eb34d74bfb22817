use vstd::prelude::*;

use crate::access_mode::AccessMode;
use crate::codegen::unique_mapping::{
    less, lemma_text_less_irreflexive, lemma_text_less_total, lemma_text_less_transitive, text_less,
};
use crate::command::Command;
use crate::device::{first_named, Device};
use crate::error::Error;
use crate::text::str_eq;

verus! {

/// Get a system command by name from a table of system commands.
pub fn system_command(
    commands: &'static [(&'static str, Command)],
    name: &str,
) -> (res: Option<&'static Command>)
    ensures
        res == (match first_named(commands@, name@) {
            Some(i) => Some(&commands@[i].1),
            None => None,
        }),
{
    let mut i: usize = 0;
    while i < commands.len()
        invariant
            i <= commands@.len(),
            forall|j: int| 0 <= j < i ==> (#[trigger] commands@[j]).0@ != name@,
        decreases commands@.len() - i,
    {
        if str_eq(commands[i].0, name) {
            proof {
                let c = choose|c: int|
                    0 <= c < commands@.len() && (#[trigger] commands@[c]).0@ == name@ && forall|j: int|
                        0 <= j < c ==> (#[trigger] commands@[j]).0@ != name@;
                assert(c == i);
            }
            return Some(&commands[i].1);
        }
        i = i + 1;
    }
    None
}

/// The command of a name: a system command where there is one, otherwise one
/// of the device; for another name, `CommandNotAvailable`.
pub fn command_by_name(
    system_commands: &'static [(&'static str, Command)],
    device: &Device,
    name: &str,
) -> (res: Result<&'static Command, Error>)
    ensures
        first_named(system_commands@, name@) matches Some(i) ==> res == Ok::<
            &'static Command,
            Error,
        >(&system_commands@[i].1),
        first_named(system_commands@, name@) is None ==> (first_named(device.commands@, name@) matches Some(i)
            ==> res == Ok::<&'static Command, Error>(&device.commands@[i].1)),
        first_named(system_commands@, name@) is None ==> (first_named(device.commands@, name@) is None ==> (
        res matches Err(Error::CommandNotAvailable(m)) && m@ == name@)),
{
    if let Some(system_command) = system_command(system_commands, name) {
        Ok(system_command)
    } else if let Some(device_command) = device.command(name) {
        Ok(device_command)
    } else {
        Err(Error::CommandNotAvailable(String::from_str(name)))
    }
}

} // verus!

verus! {

/// The command that the last entry of a table with a name has.
pub open spec fn last_named(table: Seq<(&'static str, Command)>, name: Seq<char>) -> Option<Command>
    decreases table.len(),
{
    if table.len() == 0 {
        None
    } else if table.last().0@ == name {
        Some(table.last().1)
    } else {
        last_named(table.drop_last(), name)
    }
}

/// The command of a name in the system and device tables together, as a map
/// filled first from the system commands and then from the device's keeps
/// it: the last one of the device where it has one, else the last system one.
pub open spec fn merged_named(
    system: Seq<(&'static str, Command)>,
    device: Seq<(&'static str, Command)>,
    name: Seq<char>,
) -> Option<Command> {
    match last_named(device, name) {
        Some(c) => Some(c),
        None => last_named(system, name),
    }
}

/// The command of the first entry of a merged table with a name.
pub open spec fn named_in(table: Seq<(&'static str, &'static Command)>, name: Seq<char>) -> Option<
    Command,
>
    decreases table.len(),
{
    if table.len() == 0 {
        None
    } else if table[0].0@ == name {
        Some(*table[0].1)
    } else {
        named_in(table.drop_first(), name)
    }
}

/// Whether the names of a merged table are in strictly ascending order, so
/// that each occurs once.
pub open spec fn names_ascending(table: Seq<(&'static str, &'static Command)>) -> bool {
    forall|i: int, j: int|
        0 <= i < j < table.len() ==> text_less((#[trigger] table[i]).0@, (#[trigger] table[j]).0@)
}

proof fn lemma_named_update(
    t: Seq<(&'static str, &'static Command)>,
    i: int,
    e: (&'static str, &'static Command),
    k: Seq<char>,
)
    requires
        0 <= i < t.len(),
        t[i].0@ == e.0@,
        forall|j: int| 0 <= j < i ==> (#[trigger] t[j]).0@ != e.0@,
    ensures
        named_in(t.update(i, e), k) == if k == e.0@ {
            Some(*e.1)
        } else {
            named_in(t, k)
        },
    decreases t.len(),
{
    if i > 0 {
        assert(t.update(i, e).drop_first() =~= t.drop_first().update(i - 1, e));
        assert forall|j: int| 0 <= j < i - 1 implies (#[trigger] t.drop_first()[j]).0@ != e.0@ by {
            assert(t.drop_first()[j] == t[j + 1]);
        }
        lemma_named_update(t.drop_first(), i - 1, e, k);
    } else {
        assert(t.update(i, e).drop_first() =~= t.drop_first());
    }
}

proof fn lemma_named_insert(
    t: Seq<(&'static str, &'static Command)>,
    j: int,
    e: (&'static str, &'static Command),
    k: Seq<char>,
)
    requires
        0 <= j <= t.len(),
        forall|i: int| 0 <= i < t.len() ==> (#[trigger] t[i]).0@ != e.0@,
    ensures
        named_in(t.insert(j, e), k) == if k == e.0@ {
            Some(*e.1)
        } else {
            named_in(t, k)
        },
    decreases t.len(),
{
    if j == 0 {
        assert(t.insert(0, e)[0] == e);
        assert(t.insert(0, e).drop_first() =~= t);
    } else {
        assert(t.insert(j, e)[0] == t[0]);
        assert(t.insert(j, e).drop_first() =~= t.drop_first().insert(j - 1, e));
        assert forall|i: int| 0 <= i < t.drop_first().len() implies (#[trigger] t.drop_first()[i]).0@
            != e.0@ by {
            assert(t.drop_first()[i] == t[i + 1]);
        }
        lemma_named_insert(t.drop_first(), j - 1, e, k);
        if k == e.0@ {
            assert(t[0].0@ != e.0@);
        }
    }
}

/// Puts a command into a merged table under its name, in place of the one
/// there, or at its place in the order of names.
fn put_command(
    table: &mut Vec<(&'static str, &'static Command)>,
    name: &'static str,
    command: &'static Command,
)
    requires
        names_ascending(old(table)@),
    ensures
        names_ascending(final(table)@),
        forall|k: Seq<char>| #[trigger]
            named_in(final(table)@, k) == if k == name@ {
                Some(*command)
            } else {
                named_in(old(table)@, k)
            },
{
    let ghost original = table@;
    let mut j: usize = 0;
    while j < table.len() && less(table[j].0, name)
        invariant
            table@ == original,
            names_ascending(original),
            j <= table@.len(),
            forall|k: int| 0 <= k < j ==> text_less((#[trigger] table@[k]).0@, name@),
        decreases table@.len() - j,
    {
        j = j + 1;
    }
    let entry = (name, command);
    if j < table.len() && !less(name, table[j].0) {
        proof {
            lemma_text_less_total(table@[j as int].0@, name@);
            assert forall|i: int| 0 <= i < j implies (#[trigger] original[i]).0@ != name@ by {
                lemma_text_less_irreflexive(name@);
            }
        }
        table.set(j, entry);
        proof {
            assert(table@ =~= original.update(j as int, entry));
            assert forall|k: Seq<char>| #[trigger]
                named_in(table@, k) == if k == name@ {
                    Some(*command)
                } else {
                    named_in(original, k)
                } by {
                lemma_named_update(original, j as int, entry, k);
            }
            assert forall|a: int, b: int| 0 <= a < b < table@.len() implies text_less(
                (#[trigger] table@[a]).0@,
                (#[trigger] table@[b]).0@,
            ) by {
                assert(text_less(original[a].0@, original[b].0@));
            }
        }
        return;
    }
    proof {
        if j < original.len() {
            lemma_text_less_total(original[j as int].0@, name@);
            assert(text_less(name@, original[j as int].0@));
        }
        assert forall|i: int| 0 <= i < original.len() implies (#[trigger] original[i]).0@ != name@ by {
            if i < j {
                lemma_text_less_irreflexive(name@);
            } else {
                if i > j {
                    assert(text_less(original[j as int].0@, original[i].0@));
                    lemma_text_less_transitive(name@, original[j as int].0@, original[i].0@);
                }
                lemma_text_less_irreflexive(name@);
            }
        }
    }
    table.insert(j, entry);
    proof {
        let t = table@;
        assert(t == original.insert(j as int, entry));
        assert forall|k: Seq<char>| #[trigger]
            named_in(t, k) == if k == name@ {
                Some(*command)
            } else {
                named_in(original, k)
            } by {
            lemma_named_insert(original, j as int, entry, k);
        }
        assert forall|a: int, b: int| 0 <= a < b < t.len() implies text_less(
            (#[trigger] t[a]).0@,
            (#[trigger] t[b]).0@,
        ) by {
            if b < j {
                assert(text_less(original[a].0@, original[b].0@));
            } else if b == j {
            } else if a < j {
                if b - 1 > j {
                    assert(text_less(original[j as int].0@, original[b - 1].0@));
                    lemma_text_less_transitive(name@, original[j as int].0@, original[b - 1].0@);
                }
                lemma_text_less_transitive(original[a].0@, name@, original[b - 1].0@);
            } else if a == j {
                if b - 1 > j {
                    assert(text_less(original[j as int].0@, original[b - 1].0@));
                    lemma_text_less_transitive(name@, original[j as int].0@, original[b - 1].0@);
                }
            } else {
                assert(text_less(original[a - 1].0@, original[b - 1].0@));
            }
        }
    }
}

/// The system commands and the device's commands in one table, ordered by
/// name with each name once: the device's command wins over a system command
/// of the same name, and within a table the last entry of a name wins.
pub fn merged_commands(
    system_commands: &'static [(&'static str, Command)],
    device_commands: &'static [(&'static str, Command)],
) -> (res: Vec<(&'static str, &'static Command)>)
    ensures
        names_ascending(res@),
        forall|k: Seq<char>| #[trigger]
            named_in(res@, k) == merged_named(system_commands@, device_commands@, k),
{
    let mut out: Vec<(&'static str, &'static Command)> = Vec::new();
    let mut i: usize = 0;
    while i < system_commands.len()
        invariant
            i <= system_commands@.len(),
            names_ascending(out@),
            forall|k: Seq<char>| #[trigger]
                named_in(out@, k) == last_named(system_commands@.take(i as int), k),
        decreases system_commands@.len() - i,
    {
        assert(system_commands@.take(i + 1).drop_last() =~= system_commands@.take(i as int));
        put_command(&mut out, system_commands[i].0, &system_commands[i].1);
        i = i + 1;
    }
    assert(system_commands@.take(i as int) =~= system_commands@);
    let mut j: usize = 0;
    while j < device_commands.len()
        invariant
            j <= device_commands@.len(),
            names_ascending(out@),
            forall|k: Seq<char>| #[trigger]
                named_in(out@, k) == match last_named(device_commands@.take(j as int), k) {
                    Some(c) => Some(c),
                    None => last_named(system_commands@, k),
                },
        decreases device_commands@.len() - j,
    {
        assert(device_commands@.take(j + 1).drop_last() =~= device_commands@.take(j as int));
        put_command(&mut out, device_commands[j].0, &device_commands[j].1);
        j = j + 1;
    }
    assert(device_commands@.take(j as int) =~= device_commands@);
    out
}

/// Whether a merged entry's command can be read.
pub open spec fn readable_entry(e: (&'static str, &'static Command)) -> bool {
    e.1.mode == AccessMode::Read || e.1.mode == AccessMode::ReadWrite
}

/// The entries of a table whose commands can be read, in order.
pub fn readable_commands(table: &[(&'static str, &'static Command)]) -> (res: Vec<
    (&'static str, &'static Command),
>)
    ensures
        res@ == table@.filter(|e: (&'static str, &'static Command)| readable_entry(e)),
{
    let mut out: Vec<(&'static str, &'static Command)> = Vec::new();
    let mut i: usize = 0;
    proof {
        reveal(Seq::filter);
    }
    assert(table@.take(0) =~= Seq::<(&'static str, &'static Command)>::empty());
    while i < table.len()
        invariant
            i <= table@.len(),
            out@ == table@.take(i as int).filter(|e: (&'static str, &'static Command)| readable_entry(e)),
        decreases table@.len() - i,
    {
        proof {
            reveal(Seq::filter);
            assert(table@.take(i + 1).drop_last() =~= table@.take(i as int));
            assert(table@.take(i + 1).last() == table@[i as int]);
        }
        if table[i].1.mode.is_read() {
            out.push(table[i]);
        }
        i = i + 1;
    }
    assert(table@.take(i as int) =~= table@);
    out
}

} // verus!
