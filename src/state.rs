//! The engine: one event in, the commands it calls for out.
use vstd::prelude::*;
use crate::error::{AppError, ErrorV};
use crate::events::{
    no_signal, outcome, views, ExpressionEvent, ExpressionOutput, InputEvent, OutputEvent,
    OutputV, ReplCommand, ReplEvent,
};
use crate::example::{id_text, Example, ExampleId, ReplExample};
use crate::session::{fed, ExpectingV, Fed, ReplExampleState, ReplSessionExpecting,
    ReplSessionLive, ReplSessionState, SessionV};
use crate::table::{ExampleState, ExampleStateV, ExamplesState, ExpressionExampleState};
use crate::text::push_all;

verus! {

/// The table of examples in flight, how many status lines are queued but not
/// yet written, and the error that ends the run, if one was met.
pub struct State {
    pub examples: ExamplesState,
    pub pending_eprintlns: usize,
    pub error: Option<AppError>,
}

/// The engine's state seen through views.
pub struct StateV {
    pub examples: Map<(Seq<char>, usize), ExampleStateV>,
    pub pending: usize,
    pub error: Option<ErrorV>,
}

impl View for State {
    type V = StateV;

    open spec fn view(&self) -> StateV {
        StateV {
            examples: self.examples@,
            pending: self.pending_eprintlns,
            error: match self.error {
                Some(e) => Some(e@),
                None => None,
            },
        }
    }
}

/// `s` with its table replaced by `m`.
pub open spec fn with_examples(s: StateV, m: Map<(Seq<char>, usize), ExampleStateV>) -> StateV {
    StateV { examples: m, pending: s.pending, error: s.error }
}

/// `PASS: path:line`, the status line of an example that passed.
pub open spec fn pass_line(id: (Seq<char>, usize)) -> Seq<u8> {
    seq![80u8, 65u8, 83u8, 83u8, 58u8, 32u8] + id_text(id)
}

/// The interactive example and session state under `id`, or the error
/// that looking it up meets.
pub open spec fn lookup_repl(s: StateV, id: ExampleId) -> Result<(ReplExample, SessionV), ErrorV> {
    if !s.examples.contains_key(id@) {
        Err(ErrorV::NotFound(id))
    } else {
        match s.examples[id@] {
            ExampleStateV::Repl { example, session } => Ok((example, session)),
            ExampleStateV::Expression(_) => Err(ErrorV::NotRepl(id)),
        }
    }
}

/// The state that an example starts in.
pub open spec fn initial_state(e: Example) -> ExampleStateV {
    match e {
        Example::Repl(r) => ExampleStateV::Repl { example: r, session: SessionV::AwaitingSpawn },
        Example::Expression(_) => ExampleStateV::Expression(ExpressionExampleState::Pending),
    }
}

/// The command that starts an example.
pub open spec fn start_command(e: Example) -> OutputV {
    match e {
        Example::Repl(r) => OutputV::ReplCommand(ReplCommand::Spawn(r.id)),
        Example::Expression(x) => OutputV::ExpressionCommand(x),
    }
}

/// A newly discovered example `e`.
pub open spec fn example_step(s: StateV, e: Example, t: StateV, r: Result<Seq<OutputV>, ErrorV>) -> bool {
    let id = e.spec_id();
    if s.examples.contains_key(id@) {
        r == Err::<Seq<OutputV>, ErrorV>(ErrorV::DuplicateId(id)) && t == s
    } else {
        r == Ok::<Seq<OutputV>, ErrorV>(seq![start_command(e)])
            && t == with_examples(s, s.examples.insert(id@, initial_state(e)))
    }
}

/// A session's spawn outcome.
pub open spec fn spawn_step(s: StateV, spawn: Result<ExampleId, String>, t: StateV, r: Result<Seq<OutputV>, ErrorV>) -> bool {
    match spawn {
        Err(m) => r == Err::<Seq<OutputV>, ErrorV>(ErrorV::Upstream(m)) && t == s,
        Ok(id) => match lookup_repl(s, id) {
            Err(e) => r == Err::<Seq<OutputV>, ErrorV>(e) && t == s,
            Ok((example, session)) => if !(session is AwaitingSpawn) {
                r == Err::<Seq<OutputV>, ErrorV>(ErrorV::UnexpectedSpawn(id)) && t == s
            } else {
                r == Ok::<Seq<OutputV>, ErrorV>(Seq::empty()) && t == with_examples(
                    s,
                    s.examples.insert(
                        id@,
                        ExampleStateV::Repl {
                            example,
                            session: SessionV::Live { next: 0, expecting: ExpectingV::Prompt(Seq::empty()) },
                        },
                    ),
                )
            },
        },
    }
}

/// A session's kill outcome.
pub open spec fn kill_step(s: StateV, kill: Result<ExampleId, String>, t: StateV, r: Result<Seq<OutputV>, ErrorV>) -> bool {
    match kill {
        Err(m) => r == Err::<Seq<OutputV>, ErrorV>(ErrorV::Upstream(m)) && t == s,
        Ok(id) => if !s.examples.contains_key(id@) {
            r == Err::<Seq<OutputV>, ErrorV>(ErrorV::NotFound(id)) && t == s
        } else {
            r == Ok::<Seq<OutputV>, ErrorV>(Seq::empty()) && t == with_examples(s, s.examples.remove(id@))
        },
    }
}

/// A query's write outcome: only its failure matters.
pub open spec fn query_step(s: StateV, result: Result<(), String>, t: StateV, r: Result<Seq<OutputV>, ErrorV>) -> bool {
    t == s && match result {
        Err(m) => r == Err::<Seq<OutputV>, ErrorV>(ErrorV::Upstream(m)),
        Ok(()) => r == Ok::<Seq<OutputV>, ErrorV>(Seq::empty()),
    }
}

/// A status line was written.
pub open spec fn eprintlned_step(s: StateV, t: StateV, r: Result<Seq<OutputV>, ErrorV>) -> bool {
    if s.pending == 0 {
        r == Err::<Seq<OutputV>, ErrorV>(ErrorV::CounterUnderflow) && t == s
    } else {
        r == Ok::<Seq<OutputV>, ErrorV>(Seq::empty())
            && t == StateV { examples: s.examples, pending: (s.pending - 1) as usize, error: s.error }
    }
}

/// The session under `id` is ready: send its next query, or finish it.
pub open spec fn advance_step(s: StateV, id: ExampleId, example: ReplExample, next: usize, t: StateV, r: Result<Seq<OutputV>, ErrorV>) -> bool {
    if next < example.entries@.len() {
        let entry = example.entries@[next as int];
        r == Ok::<Seq<OutputV>, ErrorV>(seq![OutputV::ReplCommand(ReplCommand::Query(id, entry.query))])
            && t == with_examples(
            s,
            s.examples.insert(
                id@,
                ExampleStateV::Repl {
                    example,
                    session: SessionV::Live {
                        next: (next + 1) as usize,
                        expecting: ExpectingV::Echo {
                            acc: Seq::empty(),
                            last_query: entry.query,
                            expected_result: entry.expected_result,
                        },
                    },
                },
            ),
        )
    } else {
        end_step(s, id, example, t, r)
    }
}

/// The script under `id` is done: kill its session and report it passed.
pub open spec fn end_step(s: StateV, id: ExampleId, example: ReplExample, t: StateV, r: Result<Seq<OutputV>, ErrorV>) -> bool {
    r == Ok::<Seq<OutputV>, ErrorV>(
        seq![OutputV::ReplCommand(ReplCommand::Kill(id)), OutputV::Eprintln(pass_line(id@))],
    ) && t == StateV {
        examples: s.examples.insert(id@, ExampleStateV::Repl { example, session: SessionV::Killing }),
        pending: (s.pending + 1) as usize,
        error: s.error,
    }
}

/// `s` with the session under `id` live at `next`, expecting `e`.
pub open spec fn with_live(s: StateV, id: ExampleId, example: ReplExample, next: usize, e: ExpectingV) -> StateV {
    with_examples(
        s,
        s.examples.insert(id@, ExampleStateV::Repl { example, session: SessionV::Live { next, expecting: e } }),
    )
}

/// The next query asked of the session under `id`.
pub open spec fn next_query_step(s: StateV, id: ExampleId, t: StateV, r: Result<Seq<OutputV>, ErrorV>) -> bool {
    match lookup_repl(s, id) {
        Err(e) => r == Err::<Seq<OutputV>, ErrorV>(e) && t == s,
        Ok((example, session)) => match session {
            SessionV::Live { next, expecting } => advance_step(s, id, example, next, t, r),
            _ => r == Err::<Seq<OutputV>, ErrorV>(ErrorV::NotLive(id)) && t == s,
        },
    }
}

/// One byte, or a read failure, from the session under `id`.
pub open spec fn read_step(s: StateV, id: ExampleId, result: Result<u8, String>, t: StateV, r: Result<Seq<OutputV>, ErrorV>) -> bool {
    match lookup_repl(s, id) {
        Err(e) => r == Err::<Seq<OutputV>, ErrorV>(e) && t == s,
        Ok((example, session)) => match session {
            SessionV::Live { next, expecting } => match result {
                Err(m) => r == Err::<Seq<OutputV>, ErrorV>(ErrorV::Upstream(m)) && t == s,
                Ok(b) => match fed(expecting, b, id) {
                    Fed::Waiting(e) => r == Ok::<Seq<OutputV>, ErrorV>(Seq::empty())
                        && t == with_live(s, id, example, next, e),
                    Fed::Failed(err) => r == Err::<Seq<OutputV>, ErrorV>(err)
                        && t == with_live(s, id, example, next, ExpectingV::Nothing),
                    Fed::PromptSeen => advance_step(
                        with_live(s, id, example, next, ExpectingV::Nothing),
                        id,
                        example,
                        next,
                        t,
                        r,
                    ),
                },
            },
            _ => r == Err::<Seq<OutputV>, ErrorV>(ErrorV::NotLive(id)) && t == s,
        },
    }
}

/// An evaluation's spawn outcome.
pub open spec fn expression_spawn_step(s: StateV, spawn: Result<ExampleId, String>, t: StateV, r: Result<Seq<OutputV>, ErrorV>) -> bool {
    match spawn {
        Err(m) => r == Err::<Seq<OutputV>, ErrorV>(ErrorV::Upstream(m)) && t == s,
        Ok(id) => if !s.examples.contains_key(id@) {
            r == Err::<Seq<OutputV>, ErrorV>(ErrorV::NotFound(id)) && t == s
        } else {
            match s.examples[id@] {
                ExampleStateV::Repl { .. } => r == Err::<Seq<OutputV>, ErrorV>(ErrorV::NotExpression(id)) && t == s,
                ExampleStateV::Expression(ExpressionExampleState::Spawned) => r == Err::<Seq<OutputV>, ErrorV>(
                    ErrorV::AlreadySpawned(id),
                ) && t == s,
                ExampleStateV::Expression(ExpressionExampleState::Pending) => r == Ok::<Seq<OutputV>, ErrorV>(Seq::empty())
                    && t == with_examples(
                    s,
                    s.examples.insert(id@, ExampleStateV::Expression(ExpressionExampleState::Spawned)),
                ),
            }
        },
    }
}

/// An evaluation's end: a failure ends the run, a success is reported.
pub open spec fn expression_output_step(s: StateV, output: Result<(ExampleId, ExpressionOutput), String>, t: StateV, r: Result<Seq<OutputV>, ErrorV>) -> bool {
    match output {
        Err(m) => r == Err::<Seq<OutputV>, ErrorV>(ErrorV::Upstream(m)) && t == s,
        Ok((id, out)) => if !out.success {
            r == Err::<Seq<OutputV>, ErrorV>(ErrorV::EvaluationFailed { id, stderr: out.stderr@ })
                && t == with_examples(s, s.examples.remove(id@))
        } else if !s.examples.contains_key(id@) {
            r == Err::<Seq<OutputV>, ErrorV>(ErrorV::NotFound(id)) && t == s
        } else {
            r == Ok::<Seq<OutputV>, ErrorV>(seq![OutputV::Eprintln(pass_line(id@))]) && t == StateV {
                examples: s.examples.remove(id@),
                pending: (s.pending + 1) as usize,
                error: s.error,
            }
        },
    }
}

/// What a session collaborator's report does.
pub open spec fn repl_step(s: StateV, e: ReplEvent, t: StateV, r: Result<Seq<OutputV>, ErrorV>) -> bool {
    match e {
        ReplEvent::Spawn(x) => spawn_step(s, x, t, r),
        ReplEvent::Query(_, _, x) => query_step(s, x, t, r),
        ReplEvent::Kill(x) => kill_step(s, x, t, r),
        ReplEvent::Read(id, x) => read_step(s, id, x, t, r),
    }
}

/// What an evaluation collaborator's report does.
pub open spec fn expression_step(s: StateV, e: ExpressionEvent, t: StateV, r: Result<Seq<OutputV>, ErrorV>) -> bool {
    match e {
        ExpressionEvent::Spawn(x) => expression_spawn_step(s, x, t, r),
        ExpressionEvent::Output(x) => expression_output_step(s, x, t, r),
    }
}

/// What an event does before termination is weighed: the new state `t`,
/// and the commands or the error `r`.
pub open spec fn step(s: StateV, e: InputEvent, t: StateV, r: Result<Seq<OutputV>, ErrorV>) -> bool {
    match e {
        InputEvent::Example(x) => example_step(s, x, t, r),
        InputEvent::ReplEvent(x) => repl_step(s, x, t, r),
        InputEvent::ExpressionEvent(x) => expression_step(s, x, t, r),
        InputEvent::Eprintlned => eprintlned_step(s, t, r),
    }
}

/// `t` with the error of `r`, if any, recorded.
pub open spec fn recorded(t: StateV, r: Result<Seq<OutputV>, ErrorV>) -> StateV {
    match r {
        Ok(_) => t,
        Err(e) => StateV { examples: t.examples, pending: t.pending, error: Some(e) },
    }
}

/// Whether the run ends in state `t`, and how.
pub open spec fn signal(t: StateV) -> Option<Result<(), ErrorV>> {
    if t.pending == 0 {
        match t.error {
            Some(e) => Some(Err(e)),
            None => if t.examples == Map::<(Seq<char>, usize), ExampleStateV>::empty() {
                Some(Ok(()))
            } else {
                None
            },
        }
    } else {
        None
    }
}

/// The commands that an event answers with, given the state `t` after it and
/// the handler's outcome `r`.
pub open spec fn respond(t: StateV, r: Result<Seq<OutputV>, ErrorV>) -> Seq<OutputV> {
    match signal(t) {
        Some(done) => seq![OutputV::Done(done)],
        None => if t.error is Some {
            Seq::empty()
        } else {
            match r {
                Ok(o) => o,
                Err(_) => Seq::empty(),
            }
        },
    }
}

/// What an event does once an error is recorded: only the acknowledgement
/// of a status line still counts; any other event changes nothing.
pub open spec fn gated_step(s: StateV, e: InputEvent, t: StateV, r: Result<Seq<OutputV>, ErrorV>) -> bool {
    if s.error is Some && !(e is Eprintlned) {
        t == s && r == Ok::<Seq<OutputV>, ErrorV>(Seq::empty())
    } else {
        step(s, e, t, r)
    }
}

/// Putting back the value a map already holds leaves it as it was.
proof fn lemma_insert_same()
    ensures
        forall|m: Map<(Seq<char>, usize), ExampleStateV>, k: (Seq<char>, usize)|
            m.contains_key(k) ==> #[trigger] m.insert(k, m[k]) == m,
        forall|m: Map<(Seq<char>, usize), ExampleStateV>, k: (Seq<char>, usize)|
            !m.contains_key(k) ==> #[trigger] m.remove(k) == m,
{
    assert forall|m: Map<(Seq<char>, usize), ExampleStateV>, k: (Seq<char>, usize)|
        !m.contains_key(k) implies #[trigger] m.remove(k) == m by {
        assert(m.remove(k) =~= m);
    }
    assert forall|m: Map<(Seq<char>, usize), ExampleStateV>, k: (Seq<char>, usize)|
        m.contains_key(k) implies #[trigger] m.insert(k, m[k]) == m by {
        assert(m.insert(k, m[k]) =~= m);
    }
}

impl State {
    pub open spec fn wf(&self) -> bool {
        self.examples.wf()
    }

    pub fn new() -> (r: Self)
        ensures
            r.wf(),
            r@ == (StateV { examples: Map::empty(), pending: 0, error: None }),
    {
        State { examples: ExamplesState::new(), pending_eprintlns: 0, error: None }
    }

    /// The status line of an example that passed.
    pub fn fmt_pass(id: &ExampleId) -> (r: Vec<u8>)
        ensures
            r@ == pass_line(id@),
    {
        let mut out: Vec<u8> = vec![80u8, 65u8, 83u8, 83u8, 58u8, 32u8];
        let text = id.to_text();
        push_all(&mut out, text.as_slice());
        assert(out@ =~= pass_line(id@));
        out
    }

    /// Queues a status line, counting it as pending.
    pub fn eprintln(&mut self, line: Vec<u8>) -> (r: OutputEvent)
        requires
            old(self).pending_eprintlns < usize::MAX,
        ensures
            final(self).pending_eprintlns == old(self).pending_eprintlns + 1,
            final(self).examples == old(self).examples,
            final(self).error == old(self).error,
            r@ == OutputV::Eprintln(line@),
    {
        self.pending_eprintlns = self.pending_eprintlns + 1;
        OutputEvent::Eprintln(line)
    }

    /// A status line was written: one fewer is pending.
    pub fn eprintlned(&mut self) -> (r: Result<Vec<OutputEvent>, AppError>)
        requires
            old(self).wf(),
        ensures
            final(self).wf(),
            eprintlned_step(old(self)@, final(self)@, outcome(r)),
    {
        if self.pending_eprintlns == 0 {
            return Err(AppError::CounterUnderflow);
        }
        self.pending_eprintlns = self.pending_eprintlns - 1;
        let r: Vec<OutputEvent> = Vec::new();
        assert(views(r@) =~= Seq::empty());
        Ok(r)
    }

    /// Takes in a newly discovered example and asks for it to be started.
    pub fn example(&mut self, example: Example) -> (r: Result<Vec<OutputEvent>, AppError>)
        requires
            old(self).wf(),
        ensures
            final(self).wf(),
            example_step(old(self)@, example, final(self)@, outcome(r)),
    {
        let ghost e0 = example;
        let (id, state, event) = match example {
            Example::Repl(example) => {
                let id = example.id.duplicate();
                let event = OutputEvent::ReplCommand(ReplCommand::Spawn(example.id.duplicate()));
                (id, ExampleState::Repl(ReplExampleState::new(example)), event)
            },
            Example::Expression(example) => {
                let id = example.id.duplicate();
                (id, ExampleState::Expression(ExpressionExampleState::Pending), OutputEvent::ExpressionCommand(example))
            },
        };
        match self.examples.insert(id, state) {
            Ok(()) => {},
            Err(e) => {
                return Err(e);
            },
        }
        let r = vec![event];
        assert(views(r@) =~= seq![start_command(e0)]);
        Ok(r)
    }

    /// A session's spawn outcome: the session goes live and owes its prompt.
    pub fn repl_event_spawn(&mut self, spawn: Result<ExampleId, String>) -> (r: Result<Vec<OutputEvent>, AppError>)
        requires
            old(self).wf(),
        ensures
            final(self).wf(),
            spawn_step(old(self)@, spawn, final(self)@, outcome(r)),
    {
        proof {
            lemma_insert_same();
        }
        let id = match spawn {
            Ok(id) => id,
            Err(m) => {
                return Err(AppError::Upstream(m));
            },
        };
        let session = match self.examples.get_mut_repl(&id) {
            Ok(session) => session,
            Err(e) => {
                return Err(e);
            },
        };
        if !matches!(session.state, ReplSessionState::AwaitingSpawn) {
            return Err(AppError::UnexpectedSpawn(id));
        }
        session.state = ReplSessionState::Live(ReplSessionLive::new());
        let r: Vec<OutputEvent> = Vec::new();
        assert(views(r@) =~= Seq::empty());
        Ok(r)
    }

    /// A query's write outcome.
    pub fn repl_event_query(&self, _id: ExampleId, _query: String, result: Result<(), String>) -> (r: Result<Vec<OutputEvent>, AppError>)
        ensures
            query_step(self@, result, self@, outcome(r)),
    {
        match result {
            Ok(()) => {},
            Err(m) => {
                return Err(AppError::Upstream(m));
            },
        }
        let r: Vec<OutputEvent> = Vec::new();
        assert(views(r@) =~= Seq::empty());
        Ok(r)
    }

    /// A session's kill outcome: its example leaves the table.
    pub fn repl_event_kill(&mut self, result: Result<ExampleId, String>) -> (r: Result<Vec<OutputEvent>, AppError>)
        requires
            old(self).wf(),
        ensures
            final(self).wf(),
            kill_step(old(self)@, result, final(self)@, outcome(r)),
    {
        let id = match result {
            Ok(id) => id,
            Err(m) => {
                return Err(AppError::Upstream(m));
            },
        };
        match self.examples.remove(&id) {
            Ok(_) => {},
            Err(e) => {
                return Err(e);
            },
        }
        let r: Vec<OutputEvent> = Vec::new();
        assert(views(r@) =~= Seq::empty());
        Ok(r)
    }

    /// Finishes the session under `id`: asks for its kill and reports it passed.
    pub fn session_end(&mut self, id: &ExampleId) -> (r: Result<Vec<OutputEvent>, AppError>)
        requires
            old(self).wf(),
            old(self).pending_eprintlns < usize::MAX,
        ensures
            final(self).wf(),
            match lookup_repl(old(self)@, *id) {
                Err(e) => outcome(r) == Err::<Seq<OutputV>, ErrorV>(e) && final(self)@ == old(self)@,
                Ok((example, _)) => end_step(old(self)@, *id, example, final(self)@, outcome(r)),
            },
    {
        let session = match self.examples.get_mut_repl(id) {
            Ok(session) => session,
            Err(e) => {
                return Err(e);
            },
        };
        session.state = ReplSessionState::Killing;
        let kill = OutputEvent::ReplCommand(ReplCommand::Kill(id.duplicate()));
        let line = self.eprintln(Self::fmt_pass(id));
        let r = vec![kill, line];
        assert(views(r@) =~= seq![OutputV::ReplCommand(ReplCommand::Kill(*id)), OutputV::Eprintln(pass_line(id@))]);
        Ok(r)
    }

    /// Sends the next query of the session under `id`, or finishes it when its
    /// script is done.
    pub fn next_query(&mut self, id: &ExampleId) -> (r: Result<Vec<OutputEvent>, AppError>)
        requires
            old(self).wf(),
            old(self).pending_eprintlns < usize::MAX,
        ensures
            final(self).wf(),
            next_query_step(old(self)@, *id, final(self)@, outcome(r)),
    {
        proof {
            lemma_insert_same();
        }
        let session = match self.examples.get_mut_repl(id) {
            Ok(session) => session,
            Err(e) => {
                return Err(e);
            },
        };
        let live = match &mut session.state {
            ReplSessionState::Live(live) => live,
            _ => {
                return Err(AppError::NotLive(id.duplicate()));
            },
        };
        if live.next >= session.example.entries.len() {
            return self.session_end(id);
        }
        let entry = &session.example.entries[live.next];
        let expected_result = match &entry.expected_result {
            Some(x) => Some(x.clone()),
            None => None,
        };
        live.expecting = ReplSessionExpecting::Echo {
            acc: Vec::new(),
            last_query: entry.query.clone(),
            expected_result,
        };
        live.next = live.next + 1;
        let r = vec![OutputEvent::ReplCommand(ReplCommand::Query(id.duplicate(), entry.query.clone()))];
        assert(views(r@) =~= seq![OutputV::ReplCommand(ReplCommand::Query(*id, entry.query))]);
        Ok(r)
    }

    /// One byte, or a read failure, from the session under `id`.
    pub fn repl_event_read(&mut self, id: ExampleId, result: Result<u8, String>) -> (r: Result<Vec<OutputEvent>, AppError>)
        requires
            old(self).wf(),
            old(self).pending_eprintlns < usize::MAX,
        ensures
            final(self).wf(),
            read_step(old(self)@, id, result, final(self)@, outcome(r)),
    {
        proof {
            lemma_insert_same();
        }
        let session = match self.examples.get_mut_repl(&id) {
            Ok(session) => session,
            Err(e) => {
                return Err(e);
            },
        };
        let live = match &mut session.state {
            ReplSessionState::Live(live) => live,
            _ => {
                return Err(AppError::NotLive(id.duplicate()));
            },
        };
        let byte = match result {
            Ok(byte) => byte,
            Err(m) => {
                return Err(AppError::Upstream(m));
            },
        };
        let seen = match live.expecting.feed(byte, &id) {
            Ok(seen) => seen,
            Err(e) => {
                return Err(e);
            },
        };
        if seen {
            self.next_query(&id)
        } else {
            let r: Vec<OutputEvent> = Vec::new();
            assert(views(r@) =~= Seq::empty());
            Ok(r)
        }
    }

    /// An evaluation's spawn outcome: it is now running.
    pub fn expression_event_spawn(&mut self, result: Result<ExampleId, String>) -> (r: Result<Vec<OutputEvent>, AppError>)
        requires
            old(self).wf(),
        ensures
            final(self).wf(),
            expression_spawn_step(old(self)@, result, final(self)@, outcome(r)),
    {
        proof {
            lemma_insert_same();
        }
        let id = match result {
            Ok(id) => id,
            Err(m) => {
                return Err(AppError::Upstream(m));
            },
        };
        let state = match self.examples.get_mut_expression(&id) {
            Ok(state) => state,
            Err(e) => {
                return Err(e);
            },
        };
        if *state == ExpressionExampleState::Spawned {
            return Err(AppError::AlreadySpawned(id));
        }
        *state = ExpressionExampleState::Spawned;
        let r: Vec<OutputEvent> = Vec::new();
        assert(views(r@) =~= Seq::empty());
        Ok(r)
    }

    /// An evaluation's end: a failure ends the run, a success is reported.
    pub fn expression_event_output(&mut self, output: Result<(ExampleId, ExpressionOutput), String>) -> (r: Result<Vec<OutputEvent>, AppError>)
        requires
            old(self).wf(),
            old(self).pending_eprintlns < usize::MAX,
        ensures
            final(self).wf(),
            expression_output_step(old(self)@, output, final(self)@, outcome(r)),
    {
        proof {
            lemma_insert_same();
        }
        let (id, out) = match output {
            Ok(x) => x,
            Err(m) => {
                return Err(AppError::Upstream(m));
            },
        };
        if !out.success {
            let _ = self.examples.remove(&id);
            return Err(AppError::EvaluationFailed { id, stderr: out.stderr });
        }
        match self.examples.remove(&id) {
            Ok(_) => {},
            Err(e) => {
                return Err(e);
            },
        }
        let line = self.eprintln(Self::fmt_pass(&id));
        let r = vec![line];
        assert(views(r@) =~= seq![OutputV::Eprintln(pass_line(id@))]);
        Ok(r)
    }

    /// A report of the evaluation collaborator.
    pub fn expression_event(&mut self, event: ExpressionEvent) -> (r: Result<Vec<OutputEvent>, AppError>)
        requires
            old(self).wf(),
            old(self).pending_eprintlns < usize::MAX,
        ensures
            final(self).wf(),
            expression_step(old(self)@, event, final(self)@, outcome(r)),
    {
        match event {
            ExpressionEvent::Spawn(x) => self.expression_event_spawn(x),
            ExpressionEvent::Output(x) => self.expression_event_output(x),
        }
    }

    /// A report of the session collaborator.
    pub fn repl_event(&mut self, event: ReplEvent) -> (r: Result<Vec<OutputEvent>, AppError>)
        requires
            old(self).wf(),
            old(self).pending_eprintlns < usize::MAX,
        ensures
            final(self).wf(),
            repl_step(old(self)@, event, final(self)@, outcome(r)),
    {
        match event {
            ReplEvent::Spawn(x) => self.repl_event_spawn(x),
            ReplEvent::Query(id, query, x) => self.repl_event_query(id, query, x),
            ReplEvent::Kill(x) => self.repl_event_kill(x),
            ReplEvent::Read(id, x) => self.repl_event_read(id, x),
        }
    }

    /// Handles one event: its error, if any, is recorded; the run ends once
    /// no status line is pending and an error is recorded or no example is
    /// left. Once an error is recorded no further decision is taken: events
    /// other than status-line acknowledgements are ignored and nothing but
    /// the final signal is emitted.
    pub fn event(&mut self, event: InputEvent) -> (r: Vec<OutputEvent>)
        requires
            old(self).wf(),
            old(self).pending_eprintlns < usize::MAX,
        ensures
            final(self).wf(),
            exists|t: StateV, h: Result<Seq<OutputV>, ErrorV>|
                gated_step(old(self)@, event, t, h) && final(self)@ == recorded(t, h) && views(r@)
                    == respond(final(self)@, h),
            old(self)@.error is Some && !(event is Eprintlned) ==> final(self)@ == old(self)@,
            final(self)@.error is Some ==> (views(r@) == Seq::<OutputV>::empty() || views(r@)
                == seq![OutputV::Done(Err(final(self)@.error->0))]),
            (views(r@) == seq![OutputV::Done(Ok(()))]) == (final(self)@.pending == 0
                && final(self)@.error is None && final(self)@.examples == Map::<
                (Seq<char>, usize),
                ExampleStateV,
            >::empty()),
            (views(r@) == seq![OutputV::Done(Err(final(self)@.error->0))] && final(self)@.error is Some)
                == (final(self)@.pending == 0 && final(self)@.error is Some),
            no_signal(views(r@)) == (signal(final(self)@) is None),
    {
        let ghost before = self@;
        let ghost ev = event;
        let halted = self.error.is_some() && !matches!(event, InputEvent::Eprintlned);
        let result = if halted {
            let r: Vec<OutputEvent> = Vec::new();
            assert(views(r@) =~= Seq::empty());
            Ok(r)
        } else {
            match event {
                InputEvent::Example(x) => self.example(x),
                InputEvent::ReplEvent(x) => self.repl_event(x),
                InputEvent::ExpressionEvent(x) => self.expression_event(x),
                InputEvent::Eprintlned => self.eprintlned(),
            }
        };
        let ghost t = self@;
        let ghost h = outcome(result);
        proof {
            lemma_step_no_signal(before, ev, t, h);
        }
        let output = match result {
            Ok(output) => if self.error.is_some() {
                Vec::new()
            } else {
                output
            },
            Err(e) => {
                self.error = Some(e);
                Vec::new()
            },
        };
        if self.pending_eprintlns == 0 {
            if let Some(e) = &self.error {
                let r = vec![OutputEvent::Done(Err(e.duplicate()))];
                assert(views(r@) =~= respond(self@, h));
                assert(self@ == recorded(t, h));
                assert(gated_step(before, ev, t, h));
                assert(views(r@)[0] != seq![OutputV::Done(Ok(()))][0]);
                assert(views(r@)[0] is Done);
                return r;
            }
        }
        if self.pending_eprintlns == 0 && self.examples.is_empty() {
            let r = vec![OutputEvent::Done(Ok(()))];
            assert(views(r@) =~= respond(self@, h));
            assert(views(r@)[0] is Done);
            return r;
        }
        assert(views(output@) =~= respond(self@, h));
        proof {
            if views(output@).len() == 1 {
                assert(!(views(output@)[0] is Done));
            }
        }
        output
    }
}

impl Default for State {
    fn default() -> (r: Self)
        ensures
            r.wf(),
            r@ == (StateV { examples: Map::empty(), pending: 0, error: None }),
    {
        State::new()
    }
}

/// No handler's commands end the run: only `event` does that.
proof fn lemma_step_no_signal(s: StateV, e: InputEvent, t: StateV, r: Result<Seq<OutputV>, ErrorV>)
    requires
        gated_step(s, e, t, r),
    ensures
        r matches Ok(o) ==> no_signal(o),
{
    if let Ok(o) = r {
        assert forall|i: int| 0 <= i < o.len() implies !(#[trigger] o[i] is Done) by {
            assert(o.len() <= 2);
        }
    }
}

} // verus!
