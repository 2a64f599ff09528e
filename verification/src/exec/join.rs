//! The join that runs a sub-pipeline for each input document: what is to be done
//! next, and what is held.
//!
//! Reading the foreign collection, holding a number against the pipeline's ceiling
//! and running stages are done outside. Each is asked for as a [`JoinAction`] and
//! answered with a [`JoinEvent`].

use vstd::prelude::*;
use vstd::string::*;

use super::pipeline::{as_values, lookup_pipeline};
use super::write::document_views;
use crate::json::{bson_members, put, BsonView, Document};

verus! {

/// What a join is to do next.
#[derive(Clone, Copy, Debug, PartialEq, Eq, Structural)]
pub enum JoinAction {
    /// Read the foreign documents.
    Read,
    /// Hold this many documents against the pipeline's ceiling.
    Check { held: usize },
    /// Run the first stage over the foreign documents: what it leaves is what
    /// every input document is joined from.
    Filter,
    /// Bind the variables of the input document at this place, and run the stages
    /// from `from` on over the foreign documents.
    Run { at: usize, from: usize },
    /// Every input document has what was joined to it.
    Done,
}

/// What was done.
#[derive(Debug)]
pub enum JoinEvent {
    /// This many foreign documents were read.
    Read { foreign: usize },
    /// The number is within the ceiling.
    Within,
    /// The first stage was run.
    Filtered,
    /// The stages gave these for the input document.
    Joined { documents: Vec<Document> },
}

/// Where a join stands.
#[derive(Clone, Copy, Debug, PartialEq, Eq, Structural)]
pub enum JoinTurn {
    Read,
    Ceiling,
    First,
    Input,
    Total,
    Over,
}

/// What a join holds.
pub struct JoinView {
    /// Whether its first stage is a `$match`, which no variable is bound in.
    pub leading_match: bool,
    pub as_field: Seq<char>,
    /// The input documents, those before `at` with what was joined to them.
    pub docs: Seq<Seq<(Seq<char>, BsonView)>>,
    pub turn: JoinTurn,
    pub foreign: nat,
    pub at: nat,
    /// How many documents were joined so far.
    pub held: nat,
    /// What is to be joined to the input document at `at`.
    pub joined: Seq<BsonView>,
}

/// What was done, as a [`JoinView`] holds it.
pub enum JoinEventView {
    Read { foreign: nat },
    Within,
    Filtered,
    Joined { documents: Seq<BsonView> },
}

impl View for JoinEvent {
    type V = JoinEventView;

    open spec fn view(&self) -> JoinEventView {
        match self {
            JoinEvent::Read { foreign } => JoinEventView::Read { foreign: *foreign as nat },
            JoinEvent::Within => JoinEventView::Within,
            JoinEvent::Filtered => JoinEventView::Filtered,
            JoinEvent::Joined { documents } => JoinEventView::Joined {
                documents: as_values(documents@),
            },
        }
    }
}

/// Whose turn it is once `at` input documents were joined.
pub open spec fn input_turn(inputs: nat, at: nat) -> JoinTurn {
    if at < inputs {
        JoinTurn::Input
    } else {
        JoinTurn::Over
    }
}

/// A join after an event. One that does not answer what was asked for changes
/// nothing.
pub open spec fn join_after(v: JoinView, event: JoinEventView) -> JoinView {
    match (v.turn, event) {
        (JoinTurn::Read, JoinEventView::Read { foreign }) => JoinView {
            turn: JoinTurn::Ceiling,
            foreign,
            ..v
        },
        (JoinTurn::Ceiling, JoinEventView::Within) => JoinView {
            turn: if v.leading_match {
                JoinTurn::First
            } else {
                input_turn(v.docs.len(), v.at)
            },
            ..v
        },
        (JoinTurn::First, JoinEventView::Filtered) => JoinView {
            turn: input_turn(v.docs.len(), v.at),
            ..v
        },
        (JoinTurn::Input, JoinEventView::Joined { documents }) => JoinView {
            turn: JoinTurn::Total,
            joined: documents,
            ..v
        },
        (JoinTurn::Total, JoinEventView::Within) => JoinView {
            turn: input_turn(v.docs.len(), v.at + 1),
            docs: v.docs.update(
                v.at as int,
                put(v.docs[v.at as int], v.as_field, BsonView::Array(v.joined)),
            ),
            at: v.at + 1,
            held: v.held + v.joined.len(),
            joined: Seq::empty(),
            ..v
        },
        _ => v,
    }
}

/// What is asked for, as numbers.
pub open spec fn asks(action: JoinAction, v: JoinView) -> bool {
    match v.turn {
        JoinTurn::Read => action == JoinAction::Read,
        JoinTurn::Ceiling => action matches JoinAction::Check { held } && held == v.foreign,
        JoinTurn::First => action == JoinAction::Filter,
        JoinTurn::Input => action matches JoinAction::Run { at, from } && at == v.at && from == (
        if v.leading_match {
            1int
        } else {
            0
        }),
        JoinTurn::Total => action matches JoinAction::Check { held } && held == v.held
            + v.joined.len(),
        JoinTurn::Over => action == JoinAction::Done,
    }
}

/// A sub-pipeline's join, an action at a time.
#[derive(Debug)]
pub struct PipelineJoin {
    leading_match: bool,
    as_field: String,
    docs: Vec<Document>,
    turn: JoinTurn,
    foreign: usize,
    at: usize,
    held: usize,
    joined: Vec<Document>,
}

impl View for PipelineJoin {
    type V = JoinView;

    closed spec fn view(&self) -> JoinView {
        JoinView {
            leading_match: self.leading_match,
            as_field: self.as_field@,
            docs: document_views(self.docs@),
            turn: self.turn,
            foreign: self.foreign as nat,
            at: self.at as nat,
            held: self.held as nat,
            joined: as_values(self.joined@),
        }
    }
}

impl PipelineJoin {
    pub closed spec fn wf(self) -> bool {
        &&& self.at <= self.docs@.len()
        &&& self.turn == JoinTurn::Input || self.turn == JoinTurn::Total ==> self.at
            < self.docs@.len()
        &&& self.held + self.joined@.len() <= usize::MAX
    }

    /// A join over these input documents, none of them joined yet.
    pub fn new(docs: Vec<Document>, as_field: &str, leading_match: bool) -> (join: Self)
        ensures
            join.wf(),
            join@ == (JoinView {
                leading_match,
                as_field: as_field@,
                docs: document_views(docs@),
                turn: JoinTurn::Read,
                foreign: 0,
                at: 0,
                held: 0,
                joined: Seq::empty(),
            }),
    {
        let join = PipelineJoin {
            leading_match,
            as_field: as_field.to_owned(),
            docs,
            turn: JoinTurn::Read,
            foreign: 0,
            at: 0,
            held: 0,
            joined: Vec::new(),
        };
        assert(as_values(join.joined@) =~= Seq::<BsonView>::empty());
        join
    }

    /// What is to be done next.
    pub fn action(&self) -> (action: JoinAction)
        requires
            self.wf(),
        ensures
            asks(action, self@),
    {
        match self.turn {
            JoinTurn::Read => JoinAction::Read,
            JoinTurn::Ceiling => JoinAction::Check { held: self.foreign },
            JoinTurn::First => JoinAction::Filter,
            JoinTurn::Input => JoinAction::Run {
                at: self.at,
                from: if self.leading_match {
                    1
                } else {
                    0
                },
            },
            JoinTurn::Total => {
                assert(as_values(self.joined@).len() == self.joined@.len());
                JoinAction::Check { held: self.held + self.joined.len() }
            },
            JoinTurn::Over => JoinAction::Done,
        }
    }

    /// Whether this many more documents can be counted beside those joined.
    pub fn counts(&self, more: usize) -> (b: bool)
        ensures
            b == (self@.held + more <= usize::MAX),
    {
        more <= usize::MAX - self.held
    }

    /// The input document at this place.
    pub fn input(&self, at: usize) -> (doc: Option<&Document>)
        ensures
            match doc {
                Some(d) => at < self@.docs.len() && bson_members(d@) == self@.docs[at as int],
                None => at >= self@.docs.len(),
            },
    {
        if at < self.docs.len() {
            Some(&self.docs[at])
        } else {
            None
        }
    }

    /// Take note of what was done.
    pub fn note(&mut self, event: JoinEvent)
        requires
            old(self).wf(),
            event@ matches JoinEventView::Joined { documents } ==> old(self)@.held
                + documents.len() <= usize::MAX,
        ensures
            final(self).wf(),
            final(self)@ == join_after(old(self)@, event@),
    {
        let ghost before = self@;
        match event {
            JoinEvent::Read { foreign } => {
                if self.turn == JoinTurn::Read {
                    self.foreign = foreign;
                    self.turn = JoinTurn::Ceiling;
                }
            },
            JoinEvent::Within => {
                if self.turn == JoinTurn::Ceiling {
                    self.turn = if self.leading_match {
                        JoinTurn::First
                    } else {
                        self.input_or_over()
                    };
                } else if self.turn == JoinTurn::Total && self.at < self.docs.len() {
                    let at: usize = self.at;
                    lookup_pipeline(
                        &mut self.docs[at],
                        self.as_field.as_str(),
                        &self.joined,
                        &mut self.held,
                    );
                    self.joined = Vec::new();
                    self.at = at + 1;
                    self.turn = self.input_or_over();
                    proof {
                        assert(as_values(self.joined@) =~= Seq::<BsonView>::empty());
                        assert(document_views(self.docs@) =~= before.docs.update(
                            at as int,
                            put(
                                before.docs[at as int],
                                before.as_field,
                                BsonView::Array(before.joined),
                            ),
                        ));
                    }
                }
            },
            JoinEvent::Filtered => {
                if self.turn == JoinTurn::First {
                    self.turn = self.input_or_over();
                }
            },
            JoinEvent::Joined { documents } => {
                assert(as_values(documents@).len() == documents@.len());
                if self.turn == JoinTurn::Input {
                    self.joined = documents;
                    self.turn = JoinTurn::Total;
                }
            },
        }
    }

    fn input_or_over(&self) -> (turn: JoinTurn)
        ensures
            turn == input_turn(self.docs@.len(), self.at as nat),
    {
        if self.at < self.docs.len() {
            JoinTurn::Input
        } else {
            JoinTurn::Over
        }
    }

    /// The input documents, with what was joined to them.
    pub fn into_documents(self) -> (docs: Vec<Document>)
        ensures
            document_views(docs@) == self@.docs,
    {
        self.docs
    }
}

/// How many documents the first `n` results hold.
pub open spec fn total_joined(results: Seq<Seq<BsonView>>, n: nat) -> nat
    decreases n,
{
    if n == 0 {
        0
    } else {
        total_joined(results, (n - 1) as nat) + results[n - 1].len()
    }
}

/// A join after each of the first `n` results was noted, and found within the
/// ceiling.
pub open spec fn join_through(v: JoinView, results: Seq<Seq<BsonView>>, n: nat) -> JoinView
    decreases n,
{
    if n == 0 {
        v
    } else {
        let before = join_through(v, results, (n - 1) as nat);
        let noted = join_after(before, JoinEventView::Joined { documents: results[n - 1] });
        join_after(noted, JoinEventView::Within)
    }
}

/// Each input document gets what was joined to it and nothing else, in its turn,
/// and the total over every document so far is what is held against the ceiling
/// before it is attached.
pub proof fn every_input_gets_what_was_joined_to_it(
    v: JoinView,
    results: Seq<Seq<BsonView>>,
    n: nat,
)
    requires
        v.turn == input_turn(v.docs.len(), 0),
        v.at == 0,
        v.held == 0,
        n <= v.docs.len(),
        n <= results.len(),
    ensures
        ({
            let after = join_through(v, results, n);
            &&& after.turn == input_turn(v.docs.len(), n)
            &&& after.at == n
            &&& after.held == total_joined(results, n)
            &&& after.docs.len() == v.docs.len()
            &&& after.as_field == v.as_field
            &&& forall|i: int|
                0 <= i < n ==> #[trigger] after.docs[i] == put(
                    v.docs[i],
                    v.as_field,
                    BsonView::Array(results[i]),
                )
            &&& forall|i: int| n <= i < v.docs.len() ==> #[trigger] after.docs[i] == v.docs[i]
        }),
        n < results.len() && n < v.docs.len() ==> {
            let noted = join_after(
                join_through(v, results, n),
                JoinEventView::Joined { documents: results[n as int] },
            );
            &&& noted.turn == JoinTurn::Total
            &&& noted.held + noted.joined.len() == total_joined(results, n + 1)
        },
    decreases n,
{
    if n > 0 {
        every_input_gets_what_was_joined_to_it(v, results, (n - 1) as nat);
    }
    if n < results.len() {
        assert(total_joined(results, n + 1) == total_joined(results, n) + results[n as int].len());
    }
}

/// A leading `$match` runs once, and before any input document: it is asked for
/// only once the foreign documents were found within the ceiling, and never again
/// once it was run.
pub proof fn a_leading_match_runs_once(v: JoinView, event: JoinEventView)
    ensures
        join_after(v, event).turn == JoinTurn::First ==> v.turn == JoinTurn::First || v.turn
            == JoinTurn::Ceiling && v.leading_match && event is Within,
        join_after(v, event).turn == JoinTurn::Ceiling ==> v.turn == JoinTurn::Ceiling || v.turn
            == JoinTurn::Read,
        join_after(v, event).turn == JoinTurn::Read ==> v.turn == JoinTurn::Read,
        v.turn == JoinTurn::Ceiling && event is Within && v.leading_match ==> join_after(
            v,
            event,
        ).turn == JoinTurn::First,
        join_after(v, event).leading_match == v.leading_match,
{
}

/// A join once its foreign documents were read and found within the ceiling, and
/// its leading `$match` was run where it has one.
pub open spec fn join_ready(v: JoinView, foreign: nat) -> JoinView {
    let read = join_after(v, JoinEventView::Read { foreign });
    let within = join_after(read, JoinEventView::Within);
    if v.leading_match {
        join_after(within, JoinEventView::Filtered)
    } else {
        within
    }
}

/// A join that is fed a result for each input document ends, and every document
/// has what was joined to it.
pub proof fn a_join_runs_to_its_end(v: JoinView, foreign: nat, results: Seq<Seq<BsonView>>)
    requires
        v.turn == JoinTurn::Read,
        v.at == 0,
        v.held == 0,
        results.len() == v.docs.len(),
    ensures
        ({
            let after = join_through(join_ready(v, foreign), results, v.docs.len());
            &&& after.turn == JoinTurn::Over
            &&& after.held == total_joined(results, v.docs.len())
            &&& after.docs.len() == v.docs.len()
            &&& forall|i: int|
                0 <= i < v.docs.len() ==> #[trigger] after.docs[i] == put(
                    v.docs[i],
                    v.as_field,
                    BsonView::Array(results[i]),
                )
        }),
{
    every_input_gets_what_was_joined_to_it(join_ready(v, foreign), results, v.docs.len());
}

} // verus!
