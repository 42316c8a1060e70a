//! Shader programs: how one is compiled and linked, and how values reach its
//! uniforms.
//!
//! The device does the compiling; the library decides what is asked of it
//! next and what its answers mean. A program is either linked and usable or
//! not there at all, and no stage object outlives the attempt.

use crate::device::{CommandView, DeviceCommand, Matrix, UniformValue};
use crate::units::clamp;
use crate::vector::Vec3;
use vstd::prelude::*;

verus! {

/// The two stages of a program.
#[derive(Clone, Copy, Debug, PartialEq, Eq, Structural)]
pub enum Stage {
    Vertex,
    Fragment,
}

/// Why a program could not be made. `log` is what the compiler or the linker
/// wrote, byte for byte.
#[derive(Debug, PartialEq, Eq)]
pub enum CompileError {
    /// A stage did not compile.
    Stage { stage: Stage, log: Vec<u8> },
    /// The stages compiled but did not link.
    Link { log: Vec<u8> },
}

/// A `CompileError` with its log as a sequence of bytes.
pub enum ErrorView {
    Stage { stage: Stage, log: Seq<u8> },
    Link { log: Seq<u8> },
}

impl View for CompileError {
    type V = ErrorView;

    open spec fn view(&self) -> ErrorView {
        match *self {
            CompileError::Stage { stage, log } => ErrorView::Stage { stage, log: log@ },
            CompileError::Link { log } => ErrorView::Link { log: log@ },
        }
    }
}

/// The diagnostic text of an error.
pub open spec fn error_log(error: ErrorView) -> Seq<u8> {
    match error {
        ErrorView::Stage { stage, log } => log,
        ErrorView::Link { log } => log,
    }
}

impl CompileError {
    /// The diagnostic text, as the device wrote it.
    pub fn log(&self) -> (log: &Vec<u8>)
        ensures
            log@ == error_log(self@),
    {
        match self {
            CompileError::Stage { stage: _, log } => log,
            CompileError::Link { log } => log,
        }
    }
}

/// What the device answers.
#[derive(Debug, PartialEq, Eq)]
pub enum BuildReply {
    /// A stage object was made and its source given to the compiler.
    /// `compiled` is the device's word on whether the stage compiled; `log`
    /// is what the compiler wrote about it, be it an error or a warning.
    StageCompiled { object: u32, compiled: bool, log: Vec<u8> },
    /// A program object was made, the stages attached and the linker run.
    /// `linked` is the device's word on whether the program linked; `log` is
    /// what the linker wrote about it.
    ProgramLinked { program: u32, linked: bool, log: Vec<u8> },
}

/// A `BuildReply` with its log as a sequence of bytes.
pub enum ReplyView {
    StageCompiled { object: u32, compiled: bool, log: Seq<u8> },
    ProgramLinked { program: u32, linked: bool, log: Seq<u8> },
}

impl View for BuildReply {
    type V = ReplyView;

    open spec fn view(&self) -> ReplyView {
        match *self {
            BuildReply::StageCompiled { object, compiled, log } => ReplyView::StageCompiled {
                object,
                compiled,
                log: log@,
            },
            BuildReply::ProgramLinked { program, linked, log } => ReplyView::ProgramLinked {
                program,
                linked,
                log: log@,
            },
        }
    }
}

/// What the library asks of the device while a program is made.
#[derive(Clone, Copy, Debug, PartialEq, Eq, Structural)]
pub enum BuildRequest {
    /// Make a stage object, give it its source and compile it; answer with
    /// `StageCompiled`.
    CompileStage { stage: Stage },
    /// Make a program object, attach the two stages and link; answer with
    /// `ProgramLinked`.
    LinkProgram { vertex: u32, fragment: u32 },
    /// Delete a stage object.
    DeleteStage { object: u32 },
    /// Delete a program object.
    DeleteProgram { program: u32 },
}

/// A linked program.
#[derive(Clone, Copy, Debug, PartialEq, Eq)]
pub struct Shader {
    id: u32,
}

/// How far the making of a program has come.
#[derive(Debug, PartialEq, Eq)]
pub enum ProgramBuild {
    /// The vertex stage is being compiled.
    CompilingVertex,
    /// The vertex stage compiled; the fragment stage is being compiled.
    CompilingFragment { vertex: u32 },
    /// Both stages compiled; the program is being linked.
    Linking { vertex: u32, fragment: u32 },
    /// The program is linked and its stage objects are deleted.
    Linked { shader: Shader },
    /// The attempt failed and everything it made is deleted.
    Failed { error: CompileError },
}

/// A `ProgramBuild` as plain values.
pub enum BuildView {
    CompilingVertex,
    CompilingFragment { vertex: u32 },
    Linking { vertex: u32, fragment: u32 },
    Linked { program: u32 },
    Failed { error: ErrorView },
}

impl View for ProgramBuild {
    type V = BuildView;

    open spec fn view(&self) -> BuildView {
        match *self {
            ProgramBuild::CompilingVertex => BuildView::CompilingVertex,
            ProgramBuild::CompilingFragment { vertex } => BuildView::CompilingFragment { vertex },
            ProgramBuild::Linking { vertex, fragment } => BuildView::Linking { vertex, fragment },
            ProgramBuild::Linked { shader } => BuildView::Linked { program: shader.id() },
            ProgramBuild::Failed { error } => BuildView::Failed { error: error@ },
        }
    }
}

/// What a reply leads to: the next state and the requests to carry out, in
/// order. The device's word decides: a stage that compiled is kept whatever
/// the compiler wrote about it, and one that did not ends the attempt with
/// the compiler's log, even an empty one; likewise for linking. A reply that
/// the state does not wait for changes nothing, and the object it reports
/// is deleted.
pub open spec fn step(build: BuildView, reply: ReplyView) -> (BuildView, Seq<BuildRequest>) {
    match (build, reply) {
        (BuildView::CompilingVertex, ReplyView::StageCompiled { object, compiled, log }) => {
            if compiled {
                (
                    BuildView::CompilingFragment { vertex: object },
                    seq![BuildRequest::CompileStage { stage: Stage::Fragment }],
                )
            } else {
                (
                    BuildView::Failed { error: ErrorView::Stage { stage: Stage::Vertex, log } },
                    seq![BuildRequest::DeleteStage { object }],
                )
            }
        },
        (
            BuildView::CompilingFragment { vertex },
            ReplyView::StageCompiled { object, compiled, log },
        ) => {
            if compiled {
                (
                    BuildView::Linking { vertex, fragment: object },
                    seq![BuildRequest::LinkProgram { vertex, fragment: object }],
                )
            } else {
                (
                    BuildView::Failed { error: ErrorView::Stage { stage: Stage::Fragment, log } },
                    seq![
                        BuildRequest::DeleteStage { object: vertex },
                        BuildRequest::DeleteStage { object },
                    ],
                )
            }
        },
        (
            BuildView::Linking { vertex, fragment },
            ReplyView::ProgramLinked { program, linked, log },
        ) => {
            if linked {
                (
                    BuildView::Linked { program },
                    seq![
                        BuildRequest::DeleteStage { object: vertex },
                        BuildRequest::DeleteStage { object: fragment },
                    ],
                )
            } else {
                (
                    BuildView::Failed { error: ErrorView::Link { log } },
                    seq![
                        BuildRequest::DeleteStage { object: vertex },
                        BuildRequest::DeleteStage { object: fragment },
                        BuildRequest::DeleteProgram { program },
                    ],
                )
            }
        },
        (_, ReplyView::StageCompiled { object, compiled, log }) => (
            build,
            seq![BuildRequest::DeleteStage { object }],
        ),
        (_, ReplyView::ProgramLinked { program, linked, log }) => (
            build,
            seq![BuildRequest::DeleteProgram { program }],
        ),
    }
}

impl ProgramBuild {
    /// Starts the making of a program: the state to begin in, and the first
    /// request.
    pub fn begin() -> (r: (ProgramBuild, BuildRequest))
        ensures
            r.0@ == BuildView::CompilingVertex,
            r.1 == (BuildRequest::CompileStage { stage: Stage::Vertex }),
    {
        (ProgramBuild::CompilingVertex, BuildRequest::CompileStage { stage: Stage::Vertex })
    }

    /// Takes the device's reply: the state that follows and the requests to
    /// carry out next, in order.
    pub fn advance(self, reply: BuildReply) -> (r: (ProgramBuild, Vec<BuildRequest>))
        ensures
            (r.0@, r.1@) == step(self@, reply@),
    {
        match reply {
            BuildReply::StageCompiled { object, compiled, log } => {
                match self {
                    ProgramBuild::CompilingVertex => {
                        if compiled {
                            let requests = vec![
                                BuildRequest::CompileStage { stage: Stage::Fragment },
                            ];
                            (ProgramBuild::CompilingFragment { vertex: object }, requests)
                        } else {
                            let requests = vec![BuildRequest::DeleteStage { object }];
                            let error = CompileError::Stage { stage: Stage::Vertex, log };
                            (ProgramBuild::Failed { error }, requests)
                        }
                    },
                    ProgramBuild::CompilingFragment { vertex } => {
                        if compiled {
                            let requests = vec![
                                BuildRequest::LinkProgram { vertex, fragment: object },
                            ];
                            (ProgramBuild::Linking { vertex, fragment: object }, requests)
                        } else {
                            let requests = vec![
                                BuildRequest::DeleteStage { object: vertex },
                                BuildRequest::DeleteStage { object },
                            ];
                            let error = CompileError::Stage { stage: Stage::Fragment, log };
                            (ProgramBuild::Failed { error }, requests)
                        }
                    },
                    waiting => {
                        let requests = vec![BuildRequest::DeleteStage { object }];
                        (waiting, requests)
                    },
                }
            },
            BuildReply::ProgramLinked { program, linked, log } => {
                match self {
                    ProgramBuild::Linking { vertex, fragment } => {
                        if linked {
                            let requests = vec![
                                BuildRequest::DeleteStage { object: vertex },
                                BuildRequest::DeleteStage { object: fragment },
                            ];
                            (ProgramBuild::Linked { shader: Shader { id: program } }, requests)
                        } else {
                            let requests = vec![
                                BuildRequest::DeleteStage { object: vertex },
                                BuildRequest::DeleteStage { object: fragment },
                                BuildRequest::DeleteProgram { program },
                            ];
                            (ProgramBuild::Failed { error: CompileError::Link { log } }, requests)
                        }
                    },
                    waiting => {
                        let requests = vec![BuildRequest::DeleteProgram { program }];
                        (waiting, requests)
                    },
                }
            },
        }
    }

    /// How the attempt ended: `None` while it is under way, then the linked
    /// program or the error.
    pub fn outcome(self) -> (r: Option<Result<Shader, CompileError>>)
        ensures
            match self@ {
                BuildView::Linked { program } => r matches Some(Ok(shader)) && shader.id()
                    == program,
                BuildView::Failed { error } => r matches Some(Err(e)) && e@ == error,
                _ => r is None,
            },
    {
        match self {
            ProgramBuild::Linked { shader } => Some(Ok(shader)),
            ProgramBuild::Failed { error } => Some(Err(error)),
            _ => None,
        }
    }
}

/// The part of `buffer` that the device wrote: its first `written` bytes,
/// and all of it or none of it where `written` is past either end.
pub fn written_log(buffer: Vec<u8>, written: i32) -> (log: Vec<u8>)
    ensures
        log@ == buffer@.take(clamp(written as int, 0, buffer@.len() as int)),
{
    let mut log = buffer;
    if written <= 0 {
        log.truncate(0);
    } else if (written as usize) < log.len() {
        log.truncate(written as usize);
    }
    assert(log@ =~= buffer@.take(clamp(written as int, 0, buffer@.len() as int)));
    log
}

impl Shader {
    /// The device's name for the program.
    pub closed spec fn id(self) -> u32 {
        self.id
    }

    /// The device's name for the program.
    pub fn handle(&self) -> (id: u32)
        ensures
            id == self.id(),
    {
        self.id
    }

    /// The command that makes this program the active one.
    pub fn use_program(&self) -> (command: DeviceCommand)
        ensures
            command@ == (CommandView::UseProgram { program: self.id() }),
    {
        DeviceCommand::UseProgram { program: self.id }
    }

    /// The command that sets the uniform `name` to 1 for `true` and to 0 for
    /// `false`.
    pub fn set_bool(&self, name: &str, value: bool) -> (command: DeviceCommand)
        ensures
            command@ == uniform_command(
                self.id(),
                name@,
                UniformValue::Int(
                    if value {
                        1i32
                    } else {
                        0i32
                    },
                ),
            ),
    {
        self.set_int(
            name,
            if value {
                1
            } else {
                0
            },
        )
    }

    /// The command that sets the uniform `name` to an integer.
    pub fn set_int(&self, name: &str, value: i32) -> (command: DeviceCommand)
        ensures
            command@ == uniform_command(self.id(), name@, UniformValue::Int(value)),
    {
        self.set_value(name, UniformValue::Int(value))
    }

    /// The command that sets the uniform `name` to a number, given in
    /// millionths.
    pub fn set_float(&self, name: &str, value: i64) -> (command: DeviceCommand)
        ensures
            command@ == uniform_command(self.id(), name@, UniformValue::Float(value)),
    {
        self.set_value(name, UniformValue::Float(value))
    }

    /// The command that sets the uniform `name` to a vector, given in
    /// millionths.
    pub fn set_vec3(&self, name: &str, value: Vec3) -> (command: DeviceCommand)
        ensures
            command@ == uniform_command(self.id(), name@, UniformValue::Vector(value)),
    {
        self.set_value(name, UniformValue::Vector(value))
    }

    /// The command that sets the uniform `name` to a matrix.
    pub fn set_matrix4(&self, name: &str, value: Matrix) -> (command: DeviceCommand)
        ensures
            command@ == uniform_command(self.id(), name@, UniformValue::Matrix(value)),
    {
        self.set_value(name, UniformValue::Matrix(value))
    }

    /// The two commands that put `texture` on texture unit `unit` and point
    /// the sampler `name` at that unit.
    pub fn set_texture(&self, name: &str, texture: u32, unit: u32) -> (commands: (
        DeviceCommand,
        DeviceCommand,
    ))
        requires
            unit <= i32::MAX,
        ensures
            commands.0@ == (CommandView::BindTexture { unit, texture }),
            commands.1@ == uniform_command(self.id(), name@, UniformValue::Int(unit as i32)),
    {
        (DeviceCommand::BindTexture { unit, texture }, self.set_int(name, unit as i32))
    }

    /// The command that sets the uniform `name` to `value`.
    fn set_value(&self, name: &str, value: UniformValue) -> (command: DeviceCommand)
        ensures
            command@ == uniform_command(self.id(), name@, value),
    {
        DeviceCommand::SetUniform { program: self.id, name: String::from_str(name), value }
    }
}

/// The command that sets the uniform `name` of `program` to `value`.
pub open spec fn uniform_command(program: u32, name: Seq<char>, value: UniformValue)
    -> CommandView {
    CommandView::SetUniform { program, name, value }
}

/// The stage objects that a state still holds: made and not yet deleted.
pub open spec fn live_stages(build: BuildView) -> Seq<u32> {
    match build {
        BuildView::CompilingFragment { vertex } => seq![vertex],
        BuildView::Linking { vertex, fragment } => seq![vertex, fragment],
        _ => Seq::empty(),
    }
}

/// Whether the attempt has ended, well or badly.
pub open spec fn is_finished(build: BuildView) -> bool {
    build is Linked || build is Failed
}

/// The stage object that a reply reports, if it reports one.
pub open spec fn created_stages(reply: ReplyView) -> Seq<u32> {
    match reply {
        ReplyView::StageCompiled { object, compiled, log } => seq![object],
        ReplyView::ProgramLinked { program, linked, log } => Seq::empty(),
    }
}

/// The log that a reply carries.
pub open spec fn reply_log(reply: ReplyView) -> Seq<u8> {
    match reply {
        ReplyView::StageCompiled { object, compiled, log } => log,
        ReplyView::ProgramLinked { program, linked, log } => log,
    }
}

/// The device's word in a reply: whether the stage compiled, or the program
/// linked.
pub open spec fn reply_succeeded(reply: ReplyView) -> bool {
    match reply {
        ReplyView::StageCompiled { object, compiled, log } => compiled,
        ReplyView::ProgramLinked { program, linked, log } => linked,
    }
}

/// Whether a state waits for a reply of this kind.
pub open spec fn awaited(build: BuildView, reply: ReplyView) -> bool {
    match (build, reply) {
        (BuildView::CompilingVertex, ReplyView::StageCompiled { object, compiled, log }) => true,
        (
            BuildView::CompilingFragment { vertex },
            ReplyView::StageCompiled { object, compiled, log },
        ) => true,
        (
            BuildView::Linking { vertex, fragment },
            ReplyView::ProgramLinked { program, linked, log },
        ) => true,
        _ => false,
    }
}

/// The stage objects that a list of requests deletes, in order.
pub open spec fn deleted_stages(requests: Seq<BuildRequest>) -> Seq<u32>
    decreases requests.len(),
{
    if requests.len() == 0 {
        Seq::empty()
    } else {
        match requests.last() {
            BuildRequest::DeleteStage { object } => deleted_stages(requests.drop_last()).push(
                object,
            ),
            _ => deleted_stages(requests.drop_last()),
        }
    }
}

/// The state after a series of replies, and all the requests made on the
/// way, in order.
pub open spec fn run(build: BuildView, replies: Seq<ReplyView>) -> (BuildView, Seq<BuildRequest>)
    decreases replies.len(),
{
    if replies.len() == 0 {
        (build, Seq::empty())
    } else {
        let before = run(build, replies.drop_last());
        let last = step(before.0, replies.last());
        (last.0, before.1 + last.1)
    }
}

/// The stage objects that a series of replies reports, in order.
pub open spec fn all_created(replies: Seq<ReplyView>) -> Seq<u32>
    decreases replies.len(),
{
    if replies.len() == 0 {
        Seq::empty()
    } else {
        all_created(replies.drop_last()) + created_stages(replies.last())
    }
}

/// `deleted_stages` of two lists, one after the other.
pub proof fn lemma_deleted_stages_of_both(a: Seq<BuildRequest>, b: Seq<BuildRequest>)
    ensures
        deleted_stages(a + b) == deleted_stages(a) + deleted_stages(b),
    decreases b.len(),
{
    if b.len() == 0 {
        assert(a + b =~= a);
        assert(deleted_stages(a) + deleted_stages(b) =~= deleted_stages(a));
    } else {
        assert((a + b).drop_last() =~= a + b.drop_last());
        assert((a + b).last() == b.last());
        lemma_deleted_stages_of_both(a, b.drop_last());
        match b.last() {
            BuildRequest::DeleteStage { object } => {
                assert(deleted_stages(a + b) =~= deleted_stages(a) + deleted_stages(b));
            },
            _ => {},
        }
    }
}

/// `deleted_stages` of a list of up to three requests.
proof fn lemma_deleted_stages_short(requests: Seq<BuildRequest>)
    requires
        requests.len() <= 3,
    ensures
        requests.len() == 1 ==> deleted_stages(requests) == deleted_stages(seq![requests[0]]),
        requests.len() == 1 && requests[0] is DeleteStage ==> deleted_stages(requests)
            == seq![requests[0]->object],
        requests.len() == 1 && !(requests[0] is DeleteStage) ==> deleted_stages(requests)
            == Seq::<u32>::empty(),
        requests.len() == 2 && requests[0] is DeleteStage && requests[1] is DeleteStage
            ==> deleted_stages(requests) == seq![requests[0]->object, requests[1]->object],
        requests.len() == 3 && requests[0] is DeleteStage && requests[1] is DeleteStage
            && !(requests[2] is DeleteStage) ==> deleted_stages(requests)
            == seq![requests[0]->object, requests[1]->object],
{
    reveal_with_fuel(deleted_stages, 4);
    if requests.len() == 1 {
        assert(requests =~= seq![requests[0]]);
        assert(requests.drop_last() =~= Seq::empty());
        if requests[0] is DeleteStage {
            assert(deleted_stages(requests) =~= seq![requests[0]->object]);
        }
    } else if requests.len() == 2 {
        assert(requests.drop_last().drop_last() =~= Seq::empty());
        if requests[0] is DeleteStage && requests[1] is DeleteStage {
            assert(requests.drop_last().last() == requests[0]);
            assert(deleted_stages(requests) =~= seq![requests[0]->object, requests[1]->object]);
        }
    } else if requests.len() == 3 {
        assert(requests.drop_last().drop_last().drop_last() =~= Seq::empty());
        if requests[0] is DeleteStage && requests[1] is DeleteStage && !(requests[2]
            is DeleteStage) {
            assert(requests.drop_last().last() == requests[1]);
            assert(requests.drop_last().drop_last().last() == requests[0]);
            assert(deleted_stages(requests) =~= seq![requests[0]->object, requests[1]->object]);
        }
    }
}

/// No step loses a stage object: those held before it, with the one that the
/// reply reports, are those held after it, with the ones whose deletion it
/// requests.
pub proof fn lemma_step_accounts_for_stages(build: BuildView, reply: ReplyView)
    ensures
        live_stages(build) + created_stages(reply) == live_stages(step(build, reply).0)
            + deleted_stages(step(build, reply).1),
{
    let (next, requests) = step(build, reply);
    lemma_deleted_stages_short(requests);
    assert(live_stages(build) + created_stages(reply) =~= live_stages(next) + deleted_stages(
        requests,
    ));
}

/// An attempt that has ended holds no stage object, and a step never leaves
/// an ended state.
pub proof fn lemma_finished_build_holds_no_stage(build: BuildView, reply: ReplyView)
    requires
        is_finished(build),
    ensures
        live_stages(build) == Seq::<u32>::empty(),
        step(build, reply).0 == build,
{
}

/// The device's word decides, and nothing else. A step on a reply that the
/// state waits for fails if and only if the device says that the stage did
/// not compile, or the program did not link, whatever the log holds: a
/// warning does not fail a stage that compiled. The error of a failed step
/// holds the device's log unchanged.
pub proof fn lemma_status_decides(build: BuildView, reply: ReplyView)
    requires
        awaited(build, reply),
    ensures
        step(build, reply).0 is Failed <==> !reply_succeeded(reply),
        step(build, reply).0 is Failed ==> error_log(step(build, reply).0->error) == reply_log(
            reply,
        ),
        (build is Linking && reply_succeeded(reply)) ==> step(build, reply).0 is Linked,
{
}

/// A step ends in a linked program only from the linking state, on a reply
/// in which the device says that the program linked; the program is the one
/// that the reply names.
pub proof fn lemma_linked_means_the_device_said_so(build: BuildView, reply: ReplyView)
    requires
        !(build is Linked),
        step(build, reply).0 is Linked,
    ensures
        build is Linking,
        reply matches ReplyView::ProgramLinked { program, linked, log } && linked && step(
            build,
            reply,
        ).0 == (BuildView::Linked { program }),
{
}

/// Over a whole attempt nothing is left behind: when it has ended, however
/// it ended and whatever the device answered on the way, every stage object
/// that the device reported has been deleted, each exactly as often as it
/// was reported.
pub proof fn lemma_run_deletes_every_stage(replies: Seq<ReplyView>)
    requires
        is_finished(run(BuildView::CompilingVertex, replies).0),
    ensures
        deleted_stages(run(BuildView::CompilingVertex, replies).1).to_multiset() == all_created(
            replies,
        ).to_multiset(),
{
    lemma_run_accounts_for_stages(BuildView::CompilingVertex, replies);
    let end = run(BuildView::CompilingVertex, replies);
    assert(live_stages(BuildView::CompilingVertex) =~= Seq::empty());
    assert(live_stages(end.0) =~= Seq::empty());
    broadcast use vstd::multiset::group_multiset_axioms;

    let none = Seq::<u32>::empty().to_multiset();
    assert(none.len() == 0) by {
        Seq::<u32>::empty().to_multiset_ensures();
    }
    let made = all_created(replies).to_multiset();
    let gone = deleted_stages(end.1).to_multiset();
    assert forall|x: u32| gone.count(x) == made.count(x) by {
        assert(none.count(x) == 0);
        assert(none.add(made).count(x) == none.add(gone).count(x));
    }
    assert(gone =~= made);
}

/// Over any series of steps no stage object is lost: those held at the
/// start, with those reported on the way, are those held at the end, with
/// those whose deletion was requested.
pub proof fn lemma_run_accounts_for_stages(build: BuildView, replies: Seq<ReplyView>)
    ensures
        live_stages(build).to_multiset().add(all_created(replies).to_multiset()) == live_stages(
            run(build, replies).0,
        ).to_multiset().add(deleted_stages(run(build, replies).1).to_multiset()),
    decreases replies.len(),
{
    if replies.len() == 0 {
        assert(deleted_stages(Seq::<BuildRequest>::empty()) =~= all_created(replies));
    } else {
        let before = run(build, replies.drop_last());
        let last = step(before.0, replies.last());
        lemma_run_accounts_for_stages(build, replies.drop_last());
        lemma_step_accounts_for_stages(before.0, replies.last());
        lemma_deleted_stages_of_both(before.1, last.1);
        let held = live_stages(build);
        let made = all_created(replies.drop_last());
        let new = created_stages(replies.last());
        let mid = live_stages(before.0);
        let gone = deleted_stages(before.1);
        let end = live_stages(last.0);
        let went = deleted_stages(last.1);
        vstd::seq_lib::lemma_multiset_commutative(made, new);
        vstd::seq_lib::lemma_multiset_commutative(gone, went);
        vstd::seq_lib::lemma_multiset_commutative(mid, new);
        vstd::seq_lib::lemma_multiset_commutative(end, went);
        broadcast use vstd::multiset::group_multiset_axioms;

        assert((mid + new).to_multiset() == (end + went).to_multiset());
        let left = held.to_multiset().add((made + new).to_multiset());
        let right = end.to_multiset().add((gone + went).to_multiset());
        assert forall|x: u32| left.count(x) == right.count(x) by {
            assert(held.to_multiset().add(made.to_multiset()).count(x) == mid.to_multiset().add(
                gone.to_multiset(),
            ).count(x));
            assert(mid.to_multiset().add(new.to_multiset()).count(x) == end.to_multiset().add(
                went.to_multiset(),
            ).count(x));
            assert((made + new).to_multiset().count(x) == made.to_multiset().add(
                new.to_multiset(),
            ).count(x));
            assert((gone + went).to_multiset().count(x) == gone.to_multiset().add(
                went.to_multiset(),
            ).count(x));
        }
        assert(left =~= right);
    }
}

} // verus!
