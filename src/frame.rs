use vstd::prelude::*;

use crate::controller::ControllerState;
use crate::mapping::MappingTable;
use crate::midi::{CcKey, Value};
use crate::shaders::{is_resolved, Program};

verus! {

/// One controller value to write to a resolved uniform.
pub struct UniformWrite {
    pub name: String,
    pub location: i32,
    pub value: Value,
}

/// Everything one draw call needs besides the program.
pub struct Frame {
    /// Surface size, written to the resolution uniform.
    pub width: u32,
    pub height: u32,
    /// Time since the loop started, written to the time uniform.
    pub elapsed_ms: u64,
    /// Controller values, one per stored control whose uniform the program
    /// resolved, in the order the state holds them.
    pub controls: Vec<UniformWrite>,
}

/// A write as name text, location and value.
pub open spec fn write_view(w: UniformWrite) -> (Seq<char>, i32, Value) {
    (w.name@, w.location, w.value)
}

/// The writes for the stored `values`: a control is written when the table
/// maps it to a uniform and the program resolved that uniform.
pub open spec fn control_writes(
    values: Seq<(CcKey, Value)>,
    table: Map<CcKey, Seq<char>>,
    program: Map<Seq<char>, i32>,
) -> Seq<(Seq<char>, i32, Value)>
    decreases values.len(),
{
    if values.len() == 0 {
        Seq::empty()
    } else {
        let rest = control_writes(values.drop_last(), table, program);
        let k = values.last().0;
        if table.contains_key(k) && program.contains_key(table[k]) && is_resolved(
            program[table[k]],
        ) {
            rest.push((table[k], program[table[k]], values.last().1))
        } else {
            rest
        }
    }
}

/// A uniform that the program does not resolve is never written: no write
/// of a frame names it.
pub proof fn lemma_unresolved_not_written(
    values: Seq<(CcKey, Value)>,
    table: Map<CcKey, Seq<char>>,
    program: Map<Seq<char>, i32>,
    name: Seq<char>,
)
    requires
        !(program.contains_key(name) && is_resolved(program[name])),
    ensures
        forall|i: int|
            0 <= i < control_writes(values, table, program).len() ==> (#[trigger] control_writes(
                values,
                table,
                program,
            )[i]).0 != name,
    decreases values.len(),
{
    if values.len() > 0 {
        let rest = control_writes(values.drop_last(), table, program);
        lemma_unresolved_not_written(values.drop_last(), table, program, name);
        let all = control_writes(values, table, program);
        assert forall|i: int| 0 <= i < all.len() implies (#[trigger] all[i]).0 != name by {
            if i < rest.len() {
                assert(all[i] == rest[i]);
            }
        }
    }
}

/// Assembles the uniforms of one frame. Controls whose uniform the program
/// does not use are skipped; nothing here can fail.
pub fn compose(
    program: &Program,
    table: &MappingTable,
    state: &ControllerState,
    width: u32,
    height: u32,
    elapsed_ms: u64,
) -> (r: Frame)
    ensures
        r.width == width,
        r.height == height,
        r.elapsed_ms == elapsed_ms,
        r.controls@.map_values(|w: UniformWrite| write_view(w)) == control_writes(
            state.values@,
            table@,
            program@,
        ),
{
    let mut controls: Vec<UniformWrite> = Vec::new();
    let mut i: usize = 0;
    while i < state.values.len()
        invariant
            i <= state.values@.len(),
            controls@.map_values(|w: UniformWrite| write_view(w)) =~= control_writes(
                state.values@.take(i as int),
                table@,
                program@,
            ),
        decreases state.values@.len() - i,
    {
        let (key, value) = state.values[i];
        let ghost prev = controls@;
        assert(state.values@.take(i + 1).drop_last() =~= state.values@.take(i as int));
        if let Some(name) = table.uniform_for(key) {
            if let Some(location) = program.get_fragment_uniform(name.as_str()) {
                if location >= 0 {
                    controls.push(UniformWrite { name: name.clone(), location, value });
                    assert(controls@.map_values(|w: UniformWrite| write_view(w)) =~= prev.map_values(
                        |w: UniformWrite| write_view(w),
                    ).push((name@, location, value)));
                }
            }
        }
        i = i + 1;
    }
    assert(state.values@.take(state.values@.len() as int) =~= state.values@);
    Frame { width, height, elapsed_ms, controls }
}

} // verus!
