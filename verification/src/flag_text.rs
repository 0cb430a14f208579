//! The text that names the flags of a set, as its `{:?}` format prints it:
//! the names of the declared flags it holds, in declaration order and
//! joined by ` | `, then the unknown bits in hexadecimal behind `0x`, and
//! `(empty)` when there is nothing to print.
use crate::radix;
use vstd::prelude::*;
use vstd::string::StringExecFns;

verus! {

/// Whether the flag with bits `flag` is named for the set `bits`: a flag
/// whose bits are zero is named only for the empty set, any other flag
/// when all its bits are in the set.
pub open spec fn is_named(bits: u128, flag: u128) -> bool {
    if flag == 0 && bits != 0 {
        false
    } else {
        bits & flag == flag
    }
}

/// The names, in declaration order, of the flags named for `bits`.
pub open spec fn named_flags(bits: u128, names: Seq<(Seq<char>, u128)>) -> Seq<Seq<char>>
    decreases names.len(),
{
    if names.len() == 0 {
        seq![]
    } else {
        let before = named_flags(bits, names.drop_last());
        if is_named(bits, names.last().1) {
            before.push(names.last().0)
        } else {
            before
        }
    }
}

/// The parts joined by `sep`.
pub open spec fn join(parts: Seq<Seq<char>>, sep: Seq<char>) -> Seq<char>
    decreases parts.len(),
{
    if parts.len() == 0 {
        seq![]
    } else if parts.len() == 1 {
        parts[0]
    } else {
        join(parts.drop_last(), sep) + sep + parts.last()
    }
}

/// The pieces of the text: the named flags, then the unknown bits.
pub open spec fn debug_parts(bits: u128, all: u128, names: Seq<(Seq<char>, u128)>) -> Seq<
    Seq<char>,
> {
    let unknown = bits & !all;
    if unknown != 0 {
        named_flags(bits, names).push("0x"@ + radix::digits(unknown as nat, 16, false))
    } else {
        named_flags(bits, names)
    }
}

/// The text of the set `bits` of a type whose declared flags are `names`
/// and whose union of flags is `all`.
pub open spec fn debug_text(bits: u128, all: u128, names: Seq<(Seq<char>, u128)>) -> Seq<char> {
    let parts = debug_parts(bits, all, names);
    if parts.len() == 0 {
        "(empty)"@
    } else {
        join(parts, " | "@)
    }
}

/// The names of a table as character sequences.
pub open spec fn name_views(names: Seq<(&str, u128)>) -> Seq<(Seq<char>, u128)> {
    names.map_values(|p: (&str, u128)| (p.0@, p.1))
}

proof fn lemma_join_push(parts: Seq<Seq<char>>, sep: Seq<char>, last: Seq<char>)
    ensures
        join(parts.push(last), sep) == (if parts.len() == 0 {
            last
        } else {
            join(parts, sep) + sep + last
        }),
{
    assert(parts.push(last).drop_last() =~= parts);
}

/// Whether the set `bits` holds the flag `flag`: all of its bits, or, for a
/// flag with no bit, the set is empty.
pub open spec fn holds_flag(bits: u128, flag: u128) -> bool {
    if flag == 0 {
        bits == 0
    } else {
        bits & flag == flag
    }
}

/// The names of the table's entries whose flags the set `bits` holds, in
/// table order, over the whole table.
pub open spec fn held_names(bits: u128, names: Seq<(Seq<char>, u128)>) -> Seq<Seq<char>> {
    names.filter(|p: (Seq<char>, u128)| holds_flag(bits, p.1)).map_values(
        |p: (Seq<char>, u128)| p.0,
    )
}

proof fn lemma_named_flags_is_filter(bits: u128, names: Seq<(Seq<char>, u128)>)
    ensures
        named_flags(bits, names) == held_names(bits, names),
    decreases names.len(),
{
    reveal(Seq::filter);
    let pred = |p: (Seq<char>, u128)| holds_flag(bits, p.1);
    let name = |p: (Seq<char>, u128)| p.0;
    if names.len() > 0 {
        lemma_named_flags_is_filter(bits, names.drop_last());
        let last = names.last();
        if last.1 == 0 {
            assert(bits & 0 == 0) by (bit_vector);
        }
        assert(is_named(bits, last.1) == pred(last));
        let before = names.drop_last().filter(pred);
        assert(names.filter(pred) == (if pred(last) {
            before.push(last)
        } else {
            before
        }));
        if pred(last) {
            assert(before.push(last).map_values(name) =~= before.map_values(name).push(last.0));
        }
    } else {
        assert(names.filter(pred).map_values(name) =~= seq![]);
    }
}

/// The text of a set names every declared flag of the table that the set
/// holds (all of whose bits are set; a flag with no bit only for the empty
/// set), in table order and whatever the table's length, then the unknown
/// bits in hexadecimal behind `0x`, joined by ` | `; it is `(empty)` when
/// there is nothing to name.
pub proof fn debug_text_names_every_held_flag(bits: u128, all: u128, names: Seq<(Seq<char>, u128)>)
    ensures
        ({
            let parts = if bits & !all != 0 {
                held_names(bits, names).push("0x"@ + radix::digits((bits & !all) as nat, 16, false))
            } else {
                held_names(bits, names)
            };
            &&& debug_text(bits, all, names) == (if parts.len() == 0 {
                "(empty)"@
            } else {
                join(parts, " | "@)
            })
            &&& forall|k: int|
                0 <= k < names.len() && holds_flag(bits, names[k].1) ==> #[trigger] parts.contains(
                    names[k].0,
                )
        }),
{
    let pred = |p: (Seq<char>, u128)| holds_flag(bits, p.1);
    let name = |p: (Seq<char>, u128)| p.0;
    lemma_named_flags_is_filter(bits, names);
    let held = held_names(bits, names);
    let parts = if bits & !all != 0 {
        held.push("0x"@ + radix::digits((bits & !all) as nat, 16, false))
    } else {
        held
    };
    assert forall|k: int| 0 <= k < names.len() && holds_flag(bits, names[k].1) implies #[trigger] parts.contains(
        names[k].0,
    ) by {
        assert(pred(names[k]));
        names.lemma_filter_contains(pred, k);
        let f = names.filter(pred);
        let j = choose|j: int| 0 <= j < f.len() && f[j] == names[k];
        assert(held[j] == names[k].0);
        assert(parts[j] == names[k].0);
    }
}

/// Whether the flag `flag` is named for the set `bits`.
pub fn named(bits: u128, flag: u128) -> (r: bool)
    ensures
        r == is_named(bits, flag),
{
    if flag == 0 && bits != 0 {
        false
    } else {
        bits & flag == flag
    }
}

/// The text of the set `bits`, for a type whose declared flags are
/// `names` (in declaration order) and whose union of flags is `all`.
pub fn debug_string(bits: u128, all: u128, names: &[(&str, u128)]) -> (s: String)
    ensures
        s@ == debug_text(bits, all, name_views(names@)),
{
    let ghost table = name_views(names@);
    let mut out = String::new();
    let mut first = true;
    let mut i: usize = 0;
    while i < names.len()
        invariant
            i <= names.len(),
            table == name_views(names@),
            out@ == join(named_flags(bits, table.take(i as int)), " | "@),
            first == (named_flags(bits, table.take(i as int)).len() == 0),
        decreases names.len() - i,
    {
        let (name, flag) = names[i];
        let ghost before = named_flags(bits, table.take(i as int));
        assert(table.take(i + 1).drop_last() =~= table.take(i as int));
        assert(table.take(i + 1).last() == (name@, flag));
        if named(bits, flag) {
            proof {
                lemma_join_push(before, " | "@, name@);
            }
            if !first {
                out.append(" | ");
            }
            first = false;
            out.append(name);
        }
        i = i + 1;
    }
    assert(table.take(names.len() as int) =~= table);
    let ghost shown = named_flags(bits, table);
    let unknown = bits & !all;
    if unknown != 0 {
        let digits = radix::digits_string(unknown, 16, false);
        proof {
            lemma_join_push(shown, " | "@, "0x"@ + digits@);
        }
        if !first {
            out.append(" | ");
        }
        first = false;
        out.append("0x");
        out.append(digits.as_str());
        assert(out@ =~= join(shown.push("0x"@ + digits@), " | "@));
    }
    if first {
        out.append("(empty)");
        assert(out@ =~= "(empty)"@);
    }
    out
}

} // verus!
