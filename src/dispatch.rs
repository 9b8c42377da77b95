use vstd::prelude::*;

use crate::api::Command;

verus! {

/// What one command yields: a text on success, a text on failure.
pub type Outcome = Result<Seq<char>, Seq<char>>;

pub open spec fn outcome_of(r: Result<String, String>) -> Outcome {
    match r {
        Ok(t) => Ok(t@),
        Err(t) => Err(t@),
    }
}

pub open spec fn outcome_text(o: Outcome) -> Seq<char> {
    match o {
        Ok(t) => t,
        Err(t) => t,
    }
}

/// The result of an update whose commands, run in order, gave `outs`: the
/// texts up to and including the first failure, as a failure, or all texts,
/// as a success where none failed.
pub open spec fn run_outcome(outs: Seq<Outcome>) -> Result<Seq<Seq<char>>, Seq<Seq<char>>>
    decreases outs.len(),
{
    if outs.len() == 0 {
        Ok(Seq::empty())
    } else {
        match run_outcome(outs.drop_last()) {
            Err(l) => Err(l),
            Ok(l) => match outs.last() {
                Ok(t) => Ok(l.push(t)),
                Err(t) => Err(l.push(t)),
            },
        }
    }
}

/// The texts of a sequence of outcomes.
pub open spec fn outcome_texts(outs: Seq<Outcome>) -> Seq<Seq<char>> {
    outs.map_values(|o: Outcome| outcome_text(o))
}

/// Where the first of the commands `0..k` fails at `k`, the update stops
/// there: it fails with exactly `k + 1` texts, those of the commands up to
/// `k`, whatever the later commands would have given.
pub proof fn lemma_first_failure_truncates(outs: Seq<Outcome>, k: int)
    requires
        0 <= k < outs.len(),
        outs[k] is Err,
        forall|j: int| 0 <= j < k ==> #[trigger] outs[j] is Ok,
    ensures
        run_outcome(outs) == Err::<Seq<Seq<char>>, Seq<Seq<char>>>(outcome_texts(outs.take(k + 1))),
        outcome_texts(outs.take(k + 1)).len() == k + 1,
    decreases outs.len(),
{
    if outs.len() == k + 1 {
        lemma_all_ok(outs.drop_last());
        assert(outs.drop_last() =~= outs.take(k));
        assert(outcome_texts(outs.take(k)).push(outcome_text(outs[k])) =~= outcome_texts(outs.take(k + 1)));
        assert(outs.take(k + 1) =~= outs);
    } else {
        let d = outs.drop_last();
        assert forall|j: int| 0 <= j < k implies #[trigger] d[j] is Ok by {
            assert(d[j] == outs[j]);
        }
        lemma_first_failure_truncates(d, k);
        assert(d.take(k + 1) =~= outs.take(k + 1));
    }
}

/// Where every command succeeds, the update succeeds with all their texts.
pub proof fn lemma_all_ok(outs: Seq<Outcome>)
    requires
        forall|j: int| 0 <= j < outs.len() ==> #[trigger] outs[j] is Ok,
    ensures
        run_outcome(outs) == Ok::<Seq<Seq<char>>, Seq<Seq<char>>>(outcome_texts(outs)),
    decreases outs.len(),
{
    if outs.len() > 0 {
        let d = outs.drop_last();
        assert forall|j: int| 0 <= j < d.len() implies #[trigger] d[j] is Ok by {
            assert(d[j] == outs[j]);
        }
        lemma_all_ok(d);
        assert(outs.last() is Ok);
        assert(outcome_texts(d).push(outcome_text(outs.last())) =~= outcome_texts(outs));
    } else {
        assert(outcome_texts(outs) =~= Seq::<Seq<char>>::empty());
    }
}

/// The progress of one update request: its commands, run one at a time, and
/// the texts gathered so far.
pub struct UpdateRun {
    session_id: String,
    commands: Vec<Command>,
    next: usize,
    results: Vec<String>,
    failed: bool,
    history: Ghost<Seq<Outcome>>,
}

impl UpdateRun {
    pub closed spec fn spec_session_id(&self) -> Seq<char> {
        self.session_id@
    }

    pub closed spec fn spec_commands(&self) -> Seq<Command> {
        self.commands@
    }

    /// The outcomes of the commands that have run, in order.
    pub closed spec fn history(&self) -> Seq<Outcome> {
        self.history@
    }

    /// Whether a command has failed.
    pub closed spec fn spec_failed(&self) -> bool {
        self.failed
    }

    /// The index of the next command to run, if any is left to run.
    pub open spec fn spec_pending(&self) -> Option<int> {
        if self.spec_failed() || self.history().len() >= self.spec_commands().len() {
            None
        } else {
            Some(self.history().len() as int)
        }
    }

    pub closed spec fn wf(&self) -> bool {
        &&& self.next == self.history@.len()
        &&& self.next <= self.commands@.len()
        &&& self.results@.map_values(|t: String| t@) == outcome_texts(self.history@)
        &&& run_outcome(self.history@) == if self.failed {
            Err::<Seq<Seq<char>>, Seq<Seq<char>>>(outcome_texts(self.history@))
        } else {
            Ok::<Seq<Seq<char>>, Seq<Seq<char>>>(outcome_texts(self.history@))
        }
    }

    /// A run of the commands of one session, none of them run yet.
    pub fn new(session_id: String, commands: Vec<Command>) -> (r: UpdateRun)
        ensures
            r.wf(),
            r.spec_session_id() == session_id@,
            r.spec_commands() == commands@,
            r.history() == Seq::<Outcome>::empty(),
            !r.spec_failed(),
    {
        let r = UpdateRun {
            session_id,
            commands,
            next: 0,
            results: Vec::new(),
            failed: false,
            history: Ghost(Seq::empty()),
        };
        assert(r.results@.map_values(|t: String| t@) =~= outcome_texts(r.history@));
        assert(outcome_texts(r.history@) =~= Seq::<Seq<char>>::empty());
        r
    }

    pub fn session_id(&self) -> (r: &String)
        ensures
            r@ == self.spec_session_id(),
    {
        &self.session_id
    }

    /// The next command to run: none once a command has failed or all have run.
    pub fn pending(&self) -> (r: Option<&Command>)
        requires
            self.wf(),
        ensures
            r is None <==> self.spec_pending() is None,
            r matches Some(c) ==> *c == self.spec_commands()[self.history().len() as int],
    {
        if self.failed || self.next >= self.commands.len() {
            None
        } else {
            Some(&self.commands[self.next])
        }
    }

    /// Records what the pending command gave. After a failure no command is
    /// pending any more.
    pub fn record(&mut self, outcome: Result<String, String>)
        requires
            old(self).wf(),
            old(self).spec_pending() is Some,
        ensures
            final(self).wf(),
            final(self).spec_session_id() == old(self).spec_session_id(),
            final(self).spec_commands() == old(self).spec_commands(),
            final(self).history() == old(self).history().push(outcome_of(outcome)),
            final(self).spec_failed() == outcome is Err,
    {
        let ghost h = self.history@;
        let ghost o = outcome_of(outcome);
        let len = self.commands.len();
        assert(self.next < len);
        let (text, failed) = match outcome {
            Ok(t) => (t, false),
            Err(t) => (t, true),
        };
        self.results.push(text);
        self.failed = failed;
        self.next = self.next + 1;
        self.history = Ghost(h.push(o));
        proof {
            assert(h.push(o).drop_last() =~= h);
            assert(outcome_texts(h).push(outcome_text(o)) =~= outcome_texts(h.push(o)));
            assert(self.results@.map_values(|t: String| t@) =~= outcome_texts(h.push(o)));
        }
    }

    /// Once a command has failed, no command is pending: the commands after
    /// the first failure never run.
    pub proof fn lemma_nothing_after_failure(&self)
        requires
            self.wf(),
            self.spec_failed(),
        ensures
            self.spec_pending() is None,
            run_outcome(self.history()) is Err,
    {
    }

    /// The texts gathered so far: a failure where a command failed, else a success.
    pub fn finish(self) -> (r: Result<Vec<String>, Vec<String>>)
        requires
            self.wf(),
        ensures
            match r {
                Ok(l) => run_outcome(self.history()) == Ok::<Seq<Seq<char>>, Seq<Seq<char>>>(
                    l@.map_values(|t: String| t@),
                ),
                Err(l) => run_outcome(self.history()) == Err::<Seq<Seq<char>>, Seq<Seq<char>>>(
                    l@.map_values(|t: String| t@),
                ),
            },
    {
        if self.failed {
            Err(self.results)
        } else {
            Ok(self.results)
        }
    }
}

} // verus!
