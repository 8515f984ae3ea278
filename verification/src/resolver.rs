//! The constant resolver: folds the `EQU` definitions of a program into the
//! operands that name them.
//!
//! A line `NAME: EQU value` defines a constant. A constant may be defined by
//! the name of another; the chain is followed to its end, and a chain that
//! comes back to a name it has passed is an error. Every operand that names a
//! constant is then replaced by the constant's value. A name that no `EQU`
//! defines is left as it is: it may be a label.

use crate::parser::{ParseError, ParseErrorView};
use crate::types::{
    outcome, views, Instruction, InstructionView, Line, LineView, Value, ValueView,
};
use vstd::hash_map::StringHashMap;
use vstd::hash_set::StringHashSet;
use vstd::prelude::*;

verus! {

/// The name that a line defines as a constant, and the value it gives it.
pub open spec fn definition(line: LineView) -> Option<(Seq<char>, ValueView)> {
    match (line.label, line.instruction) {
        (Some(name), Some(InstructionView::Equ(v))) => Some((name, v)),
        _ => None,
    }
}

/// The constants of a program, by name. A name that several lines define has
/// the value that the last of them gives it.
pub open spec fn constants(lines: Seq<LineView>) -> Map<Seq<char>, ValueView>
    decreases lines.len(),
{
    if lines.len() == 0 {
        Map::empty()
    } else {
        match definition(lines.last()) {
            Some((name, v)) => constants(lines.drop_last()).insert(name, v),
            None => constants(lines.drop_last()),
        }
    }
}

/// The value at the end of the chain of constants that begins with `val`.
/// `visited` holds the names that the chain has passed. A value that is no
/// name, or a name that is no constant, ends the chain; a name in `visited`
/// is a cycle, reported with the value at which it was found.
pub open spec fn resolve(
    consts: Map<Seq<char>, ValueView>,
    val: ValueView,
    visited: Set<Seq<char>>,
) -> Result<ValueView, ParseErrorView>
    decreases consts.dom().difference(visited).len(),
    when consts.dom().finite()
    via resolve_decreases
{
    match val {
        ValueView::Label(name) => if visited.contains(name) {
            Err(ParseErrorView::CyclicReference(val))
        } else if consts.contains_key(name) {
            resolve(consts, consts[name], visited.insert(name))
        } else {
            Ok(val)
        },
        _ => Ok(val),
    }
}

#[via_fn]
proof fn resolve_decreases(
    consts: Map<Seq<char>, ValueView>,
    val: ValueView,
    visited: Set<Seq<char>>,
) {
    if let ValueView::Label(name) = val {
        if !visited.contains(name) && consts.contains_key(name) {
            lemma_walk_measure(consts.dom(), visited, name);
        }
    }
}

/// One more name passed leaves one name less to pass.
pub proof fn lemma_walk_measure(names: Set<Seq<char>>, visited: Set<Seq<char>>, name: Seq<char>)
    requires
        names.finite(),
        names.contains(name),
        !visited.contains(name),
    ensures
        names.difference(visited.insert(name)).len() < names.difference(visited).len(),
{
    let rest = names.difference(visited);
    assert(rest.contains(name));
    assert(names.difference(visited.insert(name)) =~= rest.remove(name));
}

/// The value of the constant `name`: the end of the chain that begins with
/// its definition.
pub open spec fn constant_value(consts: Map<Seq<char>, ValueView>, name: Seq<char>) -> Result<
    ValueView,
    ParseErrorView,
> {
    resolve(consts, consts[name], Set::empty())
}

/// The first error among the constants that the lines define, in the order
/// of the lines.
pub open spec fn first_cycle(lines: Seq<LineView>, consts: Map<Seq<char>, ValueView>) -> Option<
    ParseErrorView,
>
    decreases lines.len(),
{
    if lines.len() == 0 {
        None
    } else {
        match first_cycle(lines.drop_last(), consts) {
            Some(e) => Some(e),
            None => match definition(lines.last()) {
                Some((name, _)) => match constant_value(consts, name) {
                    Err(e) => Some(e),
                    Ok(_) => None,
                },
                None => None,
            },
        }
    }
}

/// The constants with their values: each name of `consts` with the end of its chain.
pub open spec fn resolved_constants(consts: Map<Seq<char>, ValueView>) -> Map<
    Seq<char>,
    ValueView,
> {
    Map::new(
        |name: Seq<char>| consts.contains_key(name),
        |name: Seq<char>| match constant_value(consts, name) {
            Ok(v) => v,
            Err(_) => consts[name],
        },
    )
}

/// An operand with the constant it names, if any, in its place.
pub open spec fn substitute(resolved: Map<Seq<char>, ValueView>, val: ValueView) -> ValueView {
    match val {
        ValueView::Label(name) => if resolved.contains_key(name) {
            resolved[name]
        } else {
            val
        },
        _ => val,
    }
}

/// A line with the constant that its operand names, if any, in the operand's
/// place. The line's number, its label and the opcode are kept.
pub open spec fn substitute_line(resolved: Map<Seq<char>, ValueView>, line: LineView) -> LineView {
    LineView {
        index: line.index,
        label: line.label,
        instruction: match line.instruction {
            Some(instr) => Some(
                match instr.operand() {
                    Some(v) => instr.with_operand(substitute(resolved, v)),
                    None => instr,
                },
            ),
            None => None,
        },
    }
}

/// The program with its constants folded in: an error if the definition of a
/// constant leads into a cycle, the first such in the order of the lines;
/// else every line with its operand substituted.
pub open spec fn folded(lines: Seq<LineView>) -> Result<Seq<LineView>, ParseErrorView> {
    let consts = constants(lines);
    match first_cycle(lines, consts) {
        Some(e) => Err(e),
        None => Ok(
            Seq::new(lines.len(), |i: int| substitute_line(resolved_constants(consts), lines[i])),
        ),
    }
}

/// The views of the values of a table.
pub open spec fn value_views(table: Map<Seq<char>, Value>) -> Map<Seq<char>, ValueView> {
    Map::new(|name: Seq<char>| table.contains_key(name), |name: Seq<char>| table[name]@)
}

/// The constants of a program are finitely many.
pub proof fn lemma_constants_finite(lines: Seq<LineView>)
    ensures
        constants(lines).dom().finite(),
    decreases lines.len(),
{
    if lines.len() > 0 {
        lemma_constants_finite(lines.drop_last());
    }
}

/// An error among the first lines of a program is the first error of the program.
pub proof fn lemma_first_cycle_prefix(
    lines: Seq<LineView>,
    consts: Map<Seq<char>, ValueView>,
    k: int,
)
    requires
        0 <= k <= lines.len(),
        first_cycle(lines.take(k), consts) is Some,
    ensures
        first_cycle(lines, consts) == first_cycle(lines.take(k), consts),
    decreases lines.len(),
{
    if k == lines.len() {
        assert(lines.take(k) =~= lines);
    } else {
        assert(lines.drop_last().take(k) =~= lines.take(k));
        lemma_first_cycle_prefix(lines.drop_last(), consts, k);
    }
}

/// Whether the line defines the constant `name`.
pub open spec fn defines(line: LineView, name: Seq<char>) -> bool {
    definition(line) matches Some(d) && d.0 == name
}

/// A name that a line of the program defines is a constant of the program.
pub proof fn lemma_definition_is_constant(lines: Seq<LineView>, k: int, name: Seq<char>)
    requires
        0 <= k < lines.len(),
        defines(lines[k], name),
    ensures
        constants(lines).contains_key(name),
    decreases lines.len(),
{
    if k < lines.len() - 1 {
        lemma_definition_is_constant(lines.drop_last(), k, name);
    }
}

/// Every constant of the program is defined by one of its lines.
pub proof fn lemma_constant_has_definition(lines: Seq<LineView>, name: Seq<char>)
    requires
        constants(lines).contains_key(name),
    ensures
        exists|k: int| 0 <= k < lines.len() && defines(#[trigger] lines[k], name),
    decreases lines.len(),
{
    if lines.len() > 0 {
        let last = lines.len() - 1;
        if defines(lines[last], name) {
        } else {
            let before = lines.drop_last();
            lemma_constant_has_definition(before, name);
            let k = choose|k: int| 0 <= k < before.len() && defines(#[trigger] before[k], name);
            assert(lines[k] == before[k]);
        }
    }
}

/// Collects the constants of a program.
fn collect_constants(lines: &[Line]) -> (out: StringHashMap<Value>)
    ensures
        value_views(out@) == constants(views(lines@)),
        out@.dom().finite(),
{
    let mut consts: StringHashMap<Value> = StringHashMap::new();
    let ghost all = views(lines@);
    let mut i: usize = 0;
    assert(value_views(consts@) =~= constants(all.take(0)));
    while i < lines.len()
        invariant
            i <= lines.len(),
            all == views(lines@),
            value_views(consts@) == constants(all.take(i as int)),
            consts@.dom().finite(),
        decreases lines.len() - i,
    {
        let line = &lines[i];
        proof {
            assert(all.take(i + 1).drop_last() =~= all.take(i as int));
            assert(all.take(i + 1).last() == line@);
        }
        let ghost before = consts@;
        match (&line.label, &line.instruction) {
            (Some(name), Some(Instruction::Equ(val))) => {
                consts.insert(name.clone(), val.clone());
                assert(value_views(consts@) =~= value_views(before).insert(name@, val@));
            },
            _ => {},
        }
        i += 1;
    }
    assert(all.take(lines.len() as int) =~= all);
    consts
}

/// Follows the chain of constants that begins with `start` to its end.
fn resolve_value(start: &Value, consts: &StringHashMap<Value>) -> (out: Result<Value, ParseError>)
    requires
        consts@.dom().finite(),
    ensures
        outcome(out) == resolve(value_views(consts@), start@, Set::empty()),
{
    let mut visited = StringHashSet::new();
    let mut current = start.clone();
    let ghost table = value_views(consts@);
    assert(table.dom() =~= consts@.dom());
    loop
        invariant
            table == value_views(consts@),
            table.dom().finite(),
            resolve(table, current@, visited@) == resolve(table, start@, Set::empty()),
        decreases table.dom().difference(visited@).len(),
    {
        let ghost passed = visited@;
        let next = match &current {
            Value::Label(name) => {
                if !visited.insert(name.clone()) {
                    return Err(ParseError::CyclicReference(current.clone()));
                }
                match consts.get(name.as_str()) {
                    Some(inner) => {
                        proof {
                            lemma_walk_measure(table.dom(), passed, name@);
                        }
                        inner.clone()
                    },
                    None => {
                        return Ok(current.clone());
                    },
                }
            },
            _ => {
                return Ok(current.clone());
            },
        };
        current = next;
    }
}

/// Resolves every constant that the lines define, in the order of the lines,
/// and stops at the first cycle.
fn resolve_constants(lines: &[Line], consts: &StringHashMap<Value>) -> (out: Result<
    StringHashMap<Value>,
    ParseError,
>)
    requires
        value_views(consts@) == constants(views(lines@)),
        consts@.dom().finite(),
    ensures
        match out {
            Ok(resolved) => first_cycle(views(lines@), value_views(consts@)) is None && value_views(
                resolved@,
            ) == resolved_constants(value_views(consts@)),
            Err(e) => first_cycle(views(lines@), value_views(consts@)) == Some(e@),
        },
{
    let mut resolved: StringHashMap<Value> = StringHashMap::new();
    let ghost all = views(lines@);
    let ghost table = value_views(consts@);
    let mut i: usize = 0;
    while i < lines.len()
        invariant
            i <= lines.len(),
            all == views(lines@),
            table == value_views(consts@),
            table == constants(all),
            consts@.dom().finite(),
            first_cycle(all.take(i as int), table) is None,
            forall|name: Seq<char>| #[trigger]
                resolved@.contains_key(name) <==> constants(all.take(i as int)).contains_key(name),
            forall|name: Seq<char>| #[trigger]
                resolved@.contains_key(name) ==> constant_value(table, name) == Ok::<
                    ValueView,
                    ParseErrorView,
                >(resolved@[name]@),
        decreases lines.len() - i,
    {
        let line = &lines[i];
        proof {
            assert(all.take(i + 1).drop_last() =~= all.take(i as int));
            assert(all.take(i + 1).last() == line@);
        }
        match (&line.label, &line.instruction) {
            (Some(name), Some(Instruction::Equ(_))) => {
                proof {
                    assert(defines(all[i as int], name@));
                    lemma_definition_is_constant(all, i as int, name@);
                }
                match consts.get(name.as_str()) {
                    Some(val) => {
                        match resolve_value(val, consts) {
                            Ok(end) => {
                                resolved.insert(name.clone(), end);
                            },
                            Err(e) => {
                                proof {
                                    assert(first_cycle(all.take(i + 1), table) == Some(e@));
                                    lemma_first_cycle_prefix(all, table, i + 1);
                                }
                                return Err(e);
                            },
                        }
                    },
                    None => {
                        // Not reached: a name that a line defines is a constant.
                        assert(false);
                    },
                }
            },
            _ => {},
        }
        i += 1;
    }
    proof {
        assert(all.take(lines.len() as int) =~= all);
        assert(value_views(resolved@) =~= resolved_constants(table));
    }
    Ok(resolved)
}

/// The value of the constant that `val` names, or `val` if it names none.
fn replace_val(val: &Value, resolved: &StringHashMap<Value>) -> (out: Value)
    ensures
        out@ == substitute(value_views(resolved@), val@),
{
    match val {
        Value::Label(name) => match resolved.get(name.as_str()) {
            Some(v) => v.clone(),
            None => val.clone(),
        },
        _ => val.clone(),
    }
}

/// Folds the constants of a program into its operands. Labels, opcodes and
/// line numbers are kept; only operands that name a constant change.
pub fn replace_constants(lines: &[Line]) -> (out: Result<Vec<Line>, ParseError>)
    ensures
        match out {
            Ok(rewritten) => folded(views(lines@)) == Ok::<Seq<LineView>, ParseErrorView>(
                views(rewritten@),
            ),
            Err(e) => folded(views(lines@)) == Err::<Seq<LineView>, ParseErrorView>(e@),
        },
{
    let consts = collect_constants(lines);
    let resolved = match resolve_constants(lines, &consts) {
        Ok(resolved) => resolved,
        Err(e) => {
            return Err(e);
        },
    };
    let ghost all = views(lines@);
    let ghost table = value_views(resolved@);
    let mut rewritten: Vec<Line> = Vec::new();
    let mut i: usize = 0;
    while i < lines.len()
        invariant
            i <= lines.len(),
            all == views(lines@),
            table == value_views(resolved@),
            rewritten@.len() == i,
            forall|k: int| 0 <= k < i ==> (#[trigger] rewritten@[k])@ == substitute_line(table, all[k]),
        decreases lines.len() - i,
    {
        let line = &lines[i];
        let fold = |v: &Value| -> (w: Value)
            ensures
                w@ == substitute(value_views(resolved@), v@),
            { replace_val(v, &resolved) };
        let instruction = match &line.instruction {
            Some(instr) => Some(instr.map_values(fold)),
            None => None,
        };
        let label = match &line.label {
            Some(name) => Some(name.clone()),
            None => None,
        };
        rewritten.push(Line { index: line.index, label, instruction });
        i += 1;
    }
    assert(views(rewritten@) =~= Seq::new(all.len(), |k: int| substitute_line(table, all[k])));
    Ok(rewritten)
}

/// A constant that is defined by the name of another has the value of the
/// other, where that is a value and no name: every operand that names the
/// first is replaced by that value.
pub proof fn lemma_constant_chain(consts: Map<Seq<char>, ValueView>, a: Seq<char>, b: Seq<char>)
    requires
        consts.dom().finite(),
        a != b,
        consts.contains_key(a),
        consts.contains_key(b),
        consts[a] == ValueView::Label(b),
        !(consts[b] is Label),
    ensures
        constant_value(consts, a) == Ok::<ValueView, ParseErrorView>(consts[b]),
        substitute(resolved_constants(consts), ValueView::Label(a)) == consts[b],
{
    reveal_with_fuel(resolve, 3);
}

/// A constant that is defined by its own name is a cycle.
pub proof fn lemma_self_reference_is_cyclic(consts: Map<Seq<char>, ValueView>, a: Seq<char>)
    requires
        consts.dom().finite(),
        consts.contains_key(a),
        consts[a] == ValueView::Label(a),
    ensures
        constant_value(consts, a) == Err::<ValueView, ParseErrorView>(
            ParseErrorView::CyclicReference(ValueView::Label(a)),
        ),
{
    reveal_with_fuel(resolve, 3);
}

/// Two constants that are each defined by the name of the other are a cycle.
pub proof fn lemma_mutual_reference_is_cyclic(
    consts: Map<Seq<char>, ValueView>,
    a: Seq<char>,
    b: Seq<char>,
)
    requires
        consts.dom().finite(),
        a != b,
        consts.contains_key(a),
        consts.contains_key(b),
        consts[a] == ValueView::Label(b),
        consts[b] == ValueView::Label(a),
    ensures
        constant_value(consts, a) == Err::<ValueView, ParseErrorView>(
            ParseErrorView::CyclicReference(ValueView::Label(b)),
        ),
        constant_value(consts, b) == Err::<ValueView, ParseErrorView>(
            ParseErrorView::CyclicReference(ValueView::Label(a)),
        ),
{
    reveal_with_fuel(resolve, 4);
}

/// Folding changes operands only: every line keeps its number, its label and
/// its opcode, and the program keeps its length and its size.
pub proof fn lemma_folding_keeps_shape(lines: Seq<LineView>, i: int)
    requires
        folded(lines) is Ok,
        0 <= i < lines.len(),
    ensures
        folded(lines)->Ok_0.len() == lines.len(),
        folded(lines)->Ok_0[i].index == lines[i].index,
        folded(lines)->Ok_0[i].label == lines[i].label,
        folded(lines)->Ok_0[i].instruction is Some <==> lines[i].instruction is Some,
        lines[i].instruction matches Some(instr) ==> folded(lines)->Ok_0[i].instruction->0.with_operand(
            ValueView::Immediate(0),
        ) == instr.with_operand(ValueView::Immediate(0)),
{
}

} // verus!
