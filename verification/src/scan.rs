//! The listing of a scan of the controller's memory: the value of each
//! command that the memory holds, and the bytes that no command covers.
use vstd::prelude::*;

use crate::command::{all_ff, Command};

verus! {

/// A line of the listing: where it starts, the name of the command there or
/// `None` for a byte that no command covers, and the bytes.
#[derive(Debug, Clone, PartialEq, Eq)]
pub struct ScanLine {
    pub addr: u16,
    pub command: Option<&'static str>,
    pub bytes: Vec<u8>,
}

/// The view of a line: address, command name and bytes.
pub open spec fn line_view(l: ScanLine) -> (int, Option<Seq<char>>, Seq<u8>) {
    (
        l.addr as int,
        match l.command {
            Some(n) => Some(n@),
            None => None,
        },
        l.bytes@,
    )
}

/// The views of lines.
pub open spec fn lines_view(lines: Seq<ScanLine>) -> Seq<(int, Option<Seq<char>>, Seq<u8>)> {
    lines.map_values(|l: ScanLine| line_view(l))
}

/// The position of the command of an address: the last one in the table
/// with that address, as a map filled from the table in order keeps it.
pub open spec fn command_at(table: Seq<(&'static str, Command)>, addr: int) -> Option<int>
    decreases table.len(),
{
    if table.len() == 0 {
        None
    } else if table.last().1.addr == addr {
        Some(table.len() - 1)
    } else {
        command_at(table.drop_last(), addr)
    }
}

/// Whether the listing from a position can be made: each command that the
/// walk meets has a block of at least one byte, within the memory.
pub open spec fn listable(content: Seq<u8>, table: Seq<(&'static str, Command)>, i: int) -> bool
    decreases content.len() - i,
{
    if i < 0 || i >= content.len() {
        true
    } else {
        match command_at(table, i) {
            Some(k) => {
                let n = table[k].1.block_len as int;
                n >= 1 && i + n <= content.len() && listable(content, table, i + n)
            },
            None => listable(content, table, i + 1),
        }
    }
}

/// The listing from a position: at an address with a command, its block
/// unless all its bytes are 0xFF, and the walk goes on after the block;
/// elsewhere the byte unless it is 0x00 or 0xFF, and the walk goes on after it.
pub open spec fn listing(content: Seq<u8>, table: Seq<(&'static str, Command)>, i: int) -> Seq<
    (int, Option<Seq<char>>, Seq<u8>),
>
    decreases content.len() - i,
{
    if i < 0 || i >= content.len() {
        Seq::empty()
    } else {
        match command_at(table, i) {
            Some(k) => {
                let n = table[k].1.block_len as int;
                if n < 1 || i + n > content.len() {
                    Seq::empty()
                } else {
                    let bytes = content.subrange(i, i + n);
                    let rest = listing(content, table, i + n);
                    if all_ff(bytes) {
                        rest
                    } else {
                        seq![(i, Some(table[k].0@), bytes)] + rest
                    }
                }
            },
            None => {
                let b = content[i];
                let rest = listing(content, table, i + 1);
                if b != 0xff && b != 0x00 {
                    seq![(i, None::<Seq<char>>, seq![b])] + rest
                } else {
                    rest
                }
            },
        }
    }
}

proof fn lemma_command_at_last(table: Seq<(&'static str, Command)>, addr: int)
    ensures
        command_at(table, addr) matches Some(k) ==> 0 <= k < table.len() && table[k].1.addr == addr
            && forall|j: int| k < j < table.len() ==> (#[trigger] table[j]).1.addr != addr,
        command_at(table, addr) is None ==> forall|j: int|
            0 <= j < table.len() ==> (#[trigger] table[j]).1.addr != addr,
    decreases table.len(),
{
    if table.len() > 0 {
        lemma_command_at_last(table.drop_last(), addr);
        assert forall|j: int| 0 <= j < table.len() - 1 implies table.drop_last()[j] == #[trigger] table[j] by {}
    }
}

/// Whether a line of a listing from position `i` is right: it starts at or
/// after `i` within the memory; a line without a command holds the one byte
/// there, which is neither 0x00 nor 0xFF; a line with a command names the last
/// command of the table at its address and holds that command's block, not
/// all 0xFF.
pub open spec fn line_right(
    content: Seq<u8>,
    table: Seq<(&'static str, Command)>,
    i: int,
    line: (int, Option<Seq<char>>, Seq<u8>),
) -> bool {
    let (a, name, bytes) = line;
    &&& i <= a < content.len()
    &&& match name {
        None => bytes == seq![content[a]] && content[a] != 0x00 && content[a] != 0xff,
        Some(n) => exists|k: int|
            #![trigger table[k]]
            0 <= k < table.len() && table[k].1.addr == a && table[k].0@ == n && (forall|j: int|
                k < j < table.len() ==> (#[trigger] table[j]).1.addr != a) && bytes
                == content.subrange(a, a + table[k].1.block_len) && exists|x: int|
                0 <= x < bytes.len() && bytes[x] != 0xff,
    }
}

/// Each line of a listing is right, and the lines come in ascending order of
/// their addresses.
pub proof fn lemma_listing_lines(content: Seq<u8>, table: Seq<(&'static str, Command)>, i: int)
    requires
        0 <= i,
    ensures
        forall|m: int|
            0 <= m < listing(content, table, i).len() ==> line_right(
                content,
                table,
                i,
                #[trigger] listing(content, table, i)[m],
            ),
        forall|m1: int, m2: int|
            0 <= m1 < m2 < listing(content, table, i).len() ==> (#[trigger] listing(content, table, i)[m1]).0
                < (#[trigger] listing(content, table, i)[m2]).0,
    decreases content.len() - i,
{
    let l = listing(content, table, i);
    if i < content.len() {
        lemma_command_at_last(table, i);
        match command_at(table, i) {
            Some(k) => {
                let n = table[k].1.block_len as int;
                if n >= 1 && i + n <= content.len() {
                    lemma_listing_lines(content, table, i + n);
                    let rest = listing(content, table, i + n);
                    let bytes = content.subrange(i, i + n);
                    if !all_ff(bytes) {
                        let line = (i, Some(table[k].0@), bytes);
                        assert(l == seq![line] + rest);
                        assert(line_right(content, table, i, line)) by {
                            let x = choose|x: int| 0 <= x < bytes.len() && bytes[x] != 0xff;
                        }
                        assert forall|m: int| 0 <= m < l.len() implies line_right(content, table, i, #[trigger] l[m]) by {
                            if m > 0 {
                                assert(l[m] == rest[m - 1]);
                                assert(line_right(content, table, i + n, rest[m - 1]));
                            }
                        }
                        assert forall|m1: int, m2: int| 0 <= m1 < m2 < l.len() implies (#[trigger] l[m1]).0
                            < (#[trigger] l[m2]).0 by {
                            assert(l[m2] == rest[m2 - 1]);
                            assert(line_right(content, table, i + n, rest[m2 - 1]));
                            if m1 > 0 {
                                assert(l[m1] == rest[m1 - 1]);
                            }
                        }
                    } else {
                        assert forall|m: int| 0 <= m < l.len() implies line_right(content, table, i, #[trigger] l[m]) by {
                            assert(line_right(content, table, i + n, rest[m]));
                        }
                    }
                }
            },
            None => {
                lemma_listing_lines(content, table, i + 1);
                let rest = listing(content, table, i + 1);
                let b = content[i];
                if b != 0xff && b != 0x00 {
                    let line = (i, None::<Seq<char>>, seq![b]);
                    assert(l == seq![line] + rest);
                    assert forall|m: int| 0 <= m < l.len() implies line_right(content, table, i, #[trigger] l[m]) by {
                        if m > 0 {
                            assert(l[m] == rest[m - 1]);
                            assert(line_right(content, table, i + 1, rest[m - 1]));
                        }
                    }
                    assert forall|m1: int, m2: int| 0 <= m1 < m2 < l.len() implies (#[trigger] l[m1]).0
                        < (#[trigger] l[m2]).0 by {
                        assert(l[m2] == rest[m2 - 1]);
                        assert(line_right(content, table, i + 1, rest[m2 - 1]));
                        if m1 > 0 {
                            assert(l[m1] == rest[m1 - 1]);
                        }
                    }
                } else {
                    assert forall|m: int| 0 <= m < l.len() implies line_right(content, table, i, #[trigger] l[m]) by {
                        assert(line_right(content, table, i + 1, rest[m]));
                    }
                }
            },
        }
    }
}

/// Where no command of the table has its address in the memory from position
/// `i` on, the listing from `i` holds a line for each byte there that is
/// neither 0x00 nor 0xFF: that byte alone, at its address, without a command.
pub proof fn lemma_listing_stray_bytes(
    content: Seq<u8>,
    table: Seq<(&'static str, Command)>,
    i: int,
    a: int,
)
    requires
        0 <= i <= a < content.len(),
        content[a] != 0x00 && content[a] != 0xff,
        forall|k: int|
            0 <= k < table.len() ==> !(i <= (#[trigger] table[k]).1.addr < content.len()),
    ensures
        exists|m: int|
            0 <= m < listing(content, table, i).len() && #[trigger] listing(content, table, i)[m]
                == (a, None::<Seq<char>>, seq![content[a]]),
    decreases content.len() - i,
{
    lemma_command_at_last(table, i);
    assert(command_at(table, i) is None);
    let l = listing(content, table, i);
    let rest = listing(content, table, i + 1);
    let b = content[i];
    if a == i {
        assert(l == seq![(i, None::<Seq<char>>, seq![b])] + rest);
        assert(l[0] == (a, None::<Seq<char>>, seq![content[a]]));
    } else {
        lemma_listing_stray_bytes(content, table, i + 1, a);
        let m = choose|m: int|
            0 <= m < rest.len() && #[trigger] rest[m] == (a, None::<Seq<char>>, seq![content[a]]);
        if b != 0xff && b != 0x00 {
            assert(l == seq![(i, None::<Seq<char>>, seq![b])] + rest);
            assert(l[m + 1] == rest[m]);
        } else {
            assert(l == rest);
            assert(l[m] == rest[m]);
        }
    }
}

/// Finds the last entry of a table with an address.
fn find_last(table: &[(&'static str, Command)], addr: u16) -> (res: Option<usize>)
    ensures
        res matches Some(k) ==> command_at(table@, addr as int) == Some(k as int) && k
            < table@.len(),
        res is None ==> command_at(table@, addr as int) is None,
{
    let mut j: usize = table.len();
    assert(table@.subrange(0, j as int) =~= table@);
    while j > 0
        invariant
            j <= table@.len(),
            command_at(table@, addr as int) == command_at(table@.subrange(0, j as int), addr as int),
        decreases j,
    {
        assert(table@.subrange(0, j as int).drop_last() =~= table@.subrange(0, j - 1));
        if table[j - 1].1.addr == addr {
            return Some(j - 1);
        }
        j = j - 1;
    }
    None
}

/// The command of an address among the system commands and then the
/// device's commands, the later one where both have it.
fn command_of(
    system_commands: &[(&'static str, Command)],
    device_commands: &[(&'static str, Command)],
    addr: u16,
) -> (res: Option<(&'static str, usize)>)
    ensures
        ({
            let t = system_commands@ + device_commands@;
            match command_at(t, addr as int) {
                Some(k) => res == Some((t[k].0, t[k].1.block_len)),
                None => res is None,
            }
        }),
{
    let ghost t = system_commands@ + device_commands@;
    proof {
        lemma_command_at_concat(system_commands@, device_commands@, addr as int);
    }
    match find_last(device_commands, addr) {
        Some(k) => Some((device_commands[k].0, device_commands[k].1.block_len)),
        None => match find_last(system_commands, addr) {
            Some(k) => Some((system_commands[k].0, system_commands[k].1.block_len)),
            None => None,
        },
    }
}

proof fn lemma_command_at_concat(a: Seq<(&'static str, Command)>, b: Seq<(&'static str, Command)>, addr: int)
    ensures
        command_at(a + b, addr) == match command_at(b, addr) {
            Some(k) => Some(a.len() + k),
            None => command_at(a, addr),
        },
    decreases b.len(),
{
    if b.len() == 0 {
        assert(a + b =~= a);
    } else {
        assert((a + b).drop_last() =~= a + b.drop_last());
        lemma_command_at_concat(a, b.drop_last(), addr);
    }
}

/// Whether no byte is other than 0xFF.
fn all_bytes_ff(bytes: &[u8]) -> (res: bool)
    ensures
        res == all_ff(bytes@),
{
    let mut i: usize = 0;
    while i < bytes.len()
        invariant
            i <= bytes@.len(),
            forall|j: int| 0 <= j < i ==> bytes@[j] == 0xff,
        decreases bytes@.len() - i,
    {
        if bytes[i] != 0xff {
            return false;
        }
        i = i + 1;
    }
    true
}

/// Whether the listing of the memory can be made: each command that the walk
/// from address 0 meets has a block of at least one byte within the memory.
pub fn is_listable(
    content: &[u8],
    system_commands: &[(&'static str, Command)],
    device_commands: &[(&'static str, Command)],
) -> (res: bool)
    requires
        content@.len() <= 0xffff,
    ensures
        res == listable(content@, system_commands@ + device_commands@, 0),
{
    let ghost t = system_commands@ + device_commands@;
    let mut i: usize = 0;
    while i < content.len()
        invariant
            content@.len() <= 0xffff,
            t == system_commands@ + device_commands@,
            i <= content@.len(),
            listable(content@, t, 0) == listable(content@, t, i as int),
        decreases content@.len() - i,
    {
        match command_of(system_commands, device_commands, i as u16) {
            Some((_, block_len)) => {
                if block_len < 1 || block_len > content.len() - i {
                    return false;
                }
                i = i + block_len;
            },
            None => {
                i = i + 1;
            },
        }
    }
    true
}

/// Lists the memory read from address 0: the block of each command that
/// the walk meets, where not all its bytes are 0xFF, and each other byte that
/// is neither 0x00 nor 0xFF; the device's commands take precedence over the
/// system commands at the same address.
pub fn scan_listing(
    content: &[u8],
    system_commands: &[(&'static str, Command)],
    device_commands: &[(&'static str, Command)],
) -> (res: Vec<ScanLine>)
    requires
        content@.len() <= 0xffff,
        listable(content@, system_commands@ + device_commands@, 0),
    ensures
        lines_view(res@) == listing(content@, system_commands@ + device_commands@, 0),
{
    let ghost t = system_commands@ + device_commands@;
    let mut out: Vec<ScanLine> = Vec::new();
    let mut i: usize = 0;
    assert(lines_view(out@) =~= Seq::empty());
    while i < content.len()
        invariant
            content@.len() <= 0xffff,
            t == system_commands@ + device_commands@,
            i <= content@.len(),
            listable(content@, t, i as int),
            lines_view(out@) + listing(content@, t, i as int) == listing(content@, t, 0),
        decreases content@.len() - i,
    {
        let ghost before = out@;
        match command_of(system_commands, device_commands, i as u16) {
            Some((name, block_len)) => {
                let end = i + block_len;
                let bytes = &content[i..end];
                if !all_bytes_ff(bytes) {
                    out.push(ScanLine { addr: i as u16, command: Some(name), bytes: vstd::slice::slice_to_vec(bytes) });
                    assert(lines_view(out@) =~= lines_view(before).push(
                        (i as int, Some(name@), bytes@),
                    ));
                }
                i = end;
            },
            None => {
                let b = content[i];
                if b != 0xff && b != 0x00 {
                    let mut one: Vec<u8> = Vec::new();
                    one.push(b);
                    out.push(ScanLine { addr: i as u16, command: None, bytes: one });
                    assert(lines_view(out@) =~= lines_view(before).push(
                        (i as int, None::<Seq<char>>, seq![b]),
                    ));
                }
                i = i + 1;
            },
        }
    }
    assert(lines_view(out@) + listing(content@, t, i as int) =~= lines_view(out@));
    out
}

} // verus!

verus! {

/// The most bytes that one read of a scan asks for.
pub open spec fn scan_chunk() -> int {
    119
}

/// The number of bytes that the scan reads at an address: a chunk, or what
/// is left below the top address 0xFFFF.
pub fn scan_chunk_len(addr: u16) -> (res: usize)
    ensures
        res == (if scan_chunk() < 0xffff - addr {
            scan_chunk()
        } else {
            0xffff - addr
        }),
{
    let left: usize = (0xffffu16 - addr) as usize;
    if 119 < left {
        119
    } else {
        left
    }
}

} // verus!
