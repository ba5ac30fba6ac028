use vstd::prelude::*;

use crate::config::MidiConfig;
use crate::controller::{merged_map, ControllerState};
use crate::error::CustomError;
use crate::frame::{compose, control_writes, write_view, Frame, UniformWrite};
use crate::mapping::{config_entries, names_view, requested_uniforms, MappingTable};
use crate::midi::{latest_values, read_cc, Cc, CcKey, Channel, DeviceId, RawMidi};
use crate::shaders::Program;

verus! {

/// Phase of the render loop once started.
#[derive(Debug, Clone, Copy, PartialEq, Eq, Structural)]
pub enum Phase {
    Running,
    Stopping,
}

/// A window event, as far as the loop cares.
#[derive(Debug, Clone, Copy, PartialEq, Eq, Structural)]
pub enum WindowInput {
    CloseRequested,
    EscapePressed,
    Other,
}

/// Whether `e` asks the loop to stop.
pub open spec fn ends_loop(e: WindowInput) -> bool {
    e is CloseRequested || e is EscapePressed
}

/// What a shader load needs: the mapping table it is built against and the
/// uniform names whose locations it must resolve.
pub struct LoadRequest {
    pub table: MappingTable,
    pub uniforms: Vec<String>,
}

/// What became of a reload attempt.
pub enum ReloadResult {
    /// The new program is active; the program with handle `released` is no
    /// longer used and its resources are to be freed.
    Installed { released: u32 },
    /// Loading failed; the previous program stays active.
    Kept { message: String },
}

/// The request for a load against `config`: a fresh mapping table and the
/// names it asks for.
pub open spec fn is_request_for(
    r: LoadRequest,
    config: Seq<(DeviceId, Vec<(Channel, Vec<(Cc, String)>)>)>,
) -> bool {
    &&& r.table.entries@ == config_entries(config)
    &&& names_view(r.uniforms@) == requested_uniforms(r.table.entries@)
}

/// Builds the request for a load against `config`.
pub fn prepare_load(config: &MidiConfig) -> (r: LoadRequest)
    ensures
        is_request_for(r, config@),
{
    let table = MappingTable::from_config(config);
    let uniforms = table.uniform_names();
    LoadRequest { table, uniforms }
}

/// The handle that a reload result releases, if any.
pub open spec fn released_handle(r: ReloadResult) -> Option<u32> {
    match r {
        ReloadResult::Installed { released } => Some(released),
        ReloadResult::Kept { .. } => None,
    }
}

/// One reload attempt as the runtime applies it: the next state and the
/// handle released, if any.
pub open spec fn reload_step(rt: Runtime, request: LoadRequest, outcome: Result<Program, String>) -> (
    Runtime,
    Option<u32>,
) {
    match outcome {
        Ok(p) => (rt.installed(request.table, p), Some(rt.program.id)),
        Err(_) => (rt, None),
    }
}

/// A run of reload attempts: the final state and the handles released, in
/// order.
pub open spec fn run_reloads(rt: Runtime, steps: Seq<(LoadRequest, Result<Program, String>)>) -> (
    Runtime,
    Seq<u32>,
)
    decreases steps.len(),
{
    if steps.len() == 0 {
        (rt, Seq::empty())
    } else {
        let (mid, released) = run_reloads(rt, steps.drop_last());
        let (next, h) = reload_step(mid, steps.last().0, steps.last().1);
        match h {
            Some(id) => (next, released.push(id)),
            None => (next, released),
        }
    }
}

/// Handles of the programs that were active during a run, in order: the
/// first one, then each program whose load succeeded.
pub open spec fn active_handles(rt: Runtime, steps: Seq<(LoadRequest, Result<Program, String>)>) -> Seq<
    u32,
>
    decreases steps.len(),
{
    if steps.len() == 0 {
        seq![rt.program.id]
    } else {
        let earlier = active_handles(rt, steps.drop_last());
        match steps.last().1 {
            Ok(p) => earlier.push(p.id),
            Err(_) => earlier,
        }
    }
}

/// Over any run of reloads, every program that was active and then
/// replaced is released once, in order, and the program active at the end
/// is not released; so when each successful load has a fresh handle, no
/// handle is released twice.
pub proof fn lemma_each_program_released_once(
    rt: Runtime,
    steps: Seq<(LoadRequest, Result<Program, String>)>,
)
    ensures
        active_handles(rt, steps).len() >= 1,
        run_reloads(rt, steps).1 == active_handles(rt, steps).drop_last(),
        run_reloads(rt, steps).0.program.id == active_handles(rt, steps).last(),
        active_handles(rt, steps).no_duplicates() ==> run_reloads(rt, steps).1.no_duplicates()
            && !run_reloads(rt, steps).1.contains(run_reloads(rt, steps).0.program.id),
    decreases steps.len(),
{
    let hs = active_handles(rt, steps);
    if steps.len() > 0 {
        let earlier = active_handles(rt, steps.drop_last());
        lemma_each_program_released_once(rt, steps.drop_last());
        match steps.last().1 {
            Ok(p) => {
                assert(hs.drop_last() =~= earlier);
                assert(earlier.drop_last().push(earlier.last()) =~= earlier);
            },
            Err(_) => {},
        }
    } else {
        assert(hs.drop_last() =~= Seq::<u32>::empty());
    }
    if hs.no_duplicates() {
        let released = run_reloads(rt, steps).1;
        assert forall|i: int| 0 <= i < released.len() implies released[i] != hs.last() by {
            assert(released[i] == hs[i]);
        }
    }
}

/// After a successful reload, frames are composed from the new program's
/// locations and the new table, over the same controller values.
pub proof fn lemma_reload_swap(rt: Runtime, request: LoadRequest, p: Program)
    ensures
        reload_step(rt, request, Ok(p)).0.frame_controls() == control_writes(
            rt.controllers.values@,
            request.table@,
            p@,
        ),
{
}

/// State owned by the render loop. The active program and its mapping
/// table are replaced together or not at all.
pub struct Runtime {
    pub phase: Phase,
    pub config: MidiConfig,
    pub table: MappingTable,
    pub program: Program,
    pub controllers: ControllerState,
}

impl Runtime {
    /// The controller state stores each control once.
    pub open spec fn wf(&self) -> bool {
        self.controllers.wf()
    }

    /// This runtime with `program` and `table` active in place of the
    /// current pair.
    pub open spec fn installed(self, table: MappingTable, program: Program) -> Runtime {
        Runtime {
            phase: self.phase,
            config: self.config,
            table,
            program,
            controllers: self.controllers,
        }
    }

    /// The controller writes of a frame drawn from this state.
    pub open spec fn frame_controls(self) -> Seq<(Seq<char>, i32, u8)> {
        control_writes(self.controllers.values@, self.table@, self.program@)
    }

    /// Leaves the starting phase with the outcome of the first load, which
    /// `request` was made for. Without a first program there is nothing to
    /// render, so a failed load is fatal.
    pub fn start(config: MidiConfig, request: LoadRequest, outcome: Result<Program, String>) -> (r: Result<
        Runtime,
        CustomError,
    >)
        ensures
            match outcome {
                Ok(p) => {
                    &&& r matches Ok(rt)
                    &&& rt.wf()
                    &&& rt.phase == Phase::Running
                    &&& rt.config == config
                    &&& rt.table == request.table
                    &&& rt.program == p
                    &&& rt.controllers@ == Map::<CcKey, u8>::empty()
                },
                Err(m) => {
                    &&& r matches Err(e)
                    &&& e.message@ == m@
                },
            },
    {
        match outcome {
            Ok(program) => Ok(
                Runtime {
                    phase: Phase::Running,
                    config,
                    table: request.table,
                    program,
                    controllers: ControllerState::new(),
                },
            ),
            Err(message) => Err(CustomError::new(message.as_str())),
        }
    }

    /// Looks at the window events of one tick; a close request or the
    /// escape key moves the loop to its stopping phase.
    pub fn handle_window_events(&mut self, events: &Vec<WindowInput>) -> (end: bool)
        ensures
            end == exists|i: int| 0 <= i < events@.len() && ends_loop(events@[i]),
            final(self).phase == (if end {
                Phase::Stopping
            } else {
                old(self).phase
            }),
            final(self).config == old(self).config,
            final(self).table == old(self).table,
            final(self).program == old(self).program,
            final(self).controllers == old(self).controllers,
    {
        let mut end = false;
        let mut i: usize = 0;
        while i < events.len()
            invariant
                i <= events@.len(),
                end == exists|j: int| 0 <= j < i && ends_loop(events@[j]),
            decreases events@.len() - i,
        {
            match events[i] {
                WindowInput::CloseRequested | WindowInput::EscapePressed => {
                    end = true;
                },
                WindowInput::Other => {},
            }
            i = i + 1;
        }
        if end {
            self.phase = Phase::Stopping;
        }
        end
    }

    /// Reacts to the reload signals drained from the watcher's channel in
    /// one tick: any number of them asks for one load, none for none.
    pub fn handle_reload_signals(&self, pending: usize) -> (r: Option<LoadRequest>)
        ensures
            r is Some <==> pending > 0,
            r matches Some(req) ==> is_request_for(req, self.config@),
    {
        if pending > 0 {
            Some(prepare_load(&self.config))
        } else {
            None
        }
    }

    /// Installs the outcome of a reload made for `request`. On success the
    /// new program and its table replace the active pair together and the
    /// previous program is handed back for release; on failure nothing
    /// changes.
    pub fn apply_reload(&mut self, request: LoadRequest, outcome: Result<Program, String>) -> (r:
        ReloadResult)
        ensures
            match outcome {
                Ok(p) => {
                    &&& *final(self) == old(self).installed(request.table, p)
                    &&& r matches ReloadResult::Installed { released }
                    &&& released == old(self).program.id
                },
                Err(m) => {
                    &&& *final(self) == *old(self)
                    &&& r matches ReloadResult::Kept { message }
                    &&& message@ == m@
                },
            },
            (*final(self), released_handle(r)) == reload_step(*old(self), request, outcome),
    {
        match outcome {
            Ok(program) => {
                let released = self.program.id;
                self.program = program;
                self.table = request.table;
                ReloadResult::Installed { released }
            },
            Err(message) => ReloadResult::Kept { message },
        }
    }

    /// Folds the MIDI messages read in one tick into the controller state:
    /// the last value of each control-change message for a mapped control
    /// wins; other messages and those of devices in `failed` are ignored.
    pub fn handle_midi_events(&mut self, messages: &Vec<RawMidi>, failed: &Vec<DeviceId>)
        requires
            old(self).wf(),
        ensures
            final(self).wf(),
            final(self).controllers@ == merged_map(
                old(self).controllers@,
                old(self).table@,
                latest_values(messages@, failed@),
            ),
            final(self).phase == old(self).phase,
            final(self).config == old(self).config,
            final(self).table == old(self).table,
            final(self).program == old(self).program,
    {
        let events = read_cc(messages, failed);
        self.controllers.merge(&self.table, &events);
    }

    /// The uniforms of the next frame, drawn with the active program.
    pub fn render(&self, width: u32, height: u32, elapsed_ms: u64) -> (r: Frame)
        ensures
            r.width == width,
            r.height == height,
            r.elapsed_ms == elapsed_ms,
            r.controls@.map_values(|w: UniformWrite| write_view(w)) == self.frame_controls(),
    {
        compose(&self.program, &self.table, &self.controllers, width, height, elapsed_ms)
    }
}

} // verus!
