//! What was observed of each command: from its record when the shell wrote
//! one, else from a fallback that stands for the whole batch.

use vstd::prelude::*;
use crate::terminal::command_record::{ShellCommandRecord, RecordModel, QJS_SHELL_COMMAND_RECORD_EVIDENCE};

verus! {

/// What was observed of one command.
#[derive(Debug, Clone, PartialEq, Eq)]
pub struct ShellCommandObservation {
    pub command: Option<String>,
    pub evidence: Option<String>,
    pub diagnostic: Option<String>,
    pub exit_code: Option<i32>,
    pub terminal_output: Option<String>,
}

pub struct ObservationModel {
    pub command: Option<Seq<char>>,
    pub evidence: Option<Seq<char>>,
    pub diagnostic: Option<Seq<char>>,
    pub exit_code: Option<i32>,
    pub terminal_output: Option<Seq<char>>,
}

impl View for ShellCommandObservation {
    type V = ObservationModel;

    open spec fn view(&self) -> ObservationModel {
        ObservationModel {
            command: self.command.deep_view(),
            evidence: self.evidence.deep_view(),
            diagnostic: self.diagnostic.deep_view(),
            exit_code: self.exit_code,
            terminal_output: self.terminal_output.deep_view(),
        }
    }
}

/// An observation that says nothing.
pub open spec fn blank_observation() -> ObservationModel {
    ObservationModel {
        command: None,
        evidence: None,
        diagnostic: None,
        exit_code: None,
        terminal_output: None,
    }
}

/// The observation a record gives, with the record evidence.
pub open spec fn from_record_model(r: RecordModel) -> ObservationModel {
    ObservationModel {
        command: Some(r.command),
        evidence: Some(QJS_SHELL_COMMAND_RECORD_EVIDENCE@),
        diagnostic: r.diagnostic,
        exit_code: r.exit_code,
        terminal_output: r.terminal_output,
    }
}

pub open spec fn observation_models(v: Seq<ShellCommandObservation>) -> Seq<ObservationModel> {
    v.map_values(|o: ShellCommandObservation| o@)
}

/// The first observation for `command`, if any.
pub open spec fn first_for(records: Seq<ObservationModel>, command: Seq<char>) -> Option<
    ObservationModel,
>
    decreases records.len(),
{
    if records.len() == 0 {
        None
    } else if records[0].command == Some(command) {
        Some(records[0])
    } else {
        first_for(records.drop_first(), command)
    }
}

/// There is an error when a diagnostic was reported or the exit code is not 0.
pub open spec fn is_error(o: ObservationModel) -> bool {
    o.diagnostic is Some || (o.exit_code is Some && o.exit_code->0 != 0)
}

impl Default for ShellCommandObservation {
    fn default() -> (r: Self)
        ensures
            r@ == blank_observation(),
    {
        ShellCommandObservation {
            command: None,
            evidence: None,
            diagnostic: None,
            exit_code: None,
            terminal_output: None,
        }
    }
}

fn clone_opt(s: &Option<String>) -> (r: Option<String>)
    ensures
        r.deep_view() == s.deep_view(),
{
    match s {
        Some(x) => Some(x.clone()),
        None => None,
    }
}

impl ShellCommandObservation {
    /// The observation a record gives: its command, diagnostic, exit code and
    /// output, with the record evidence.
    pub fn from_record(record: ShellCommandRecord) -> (r: Self)
        ensures
            r@ == from_record_model(record@),
    {
        ShellCommandObservation {
            command: Some(record.command),
            evidence: Some(QJS_SHELL_COMMAND_RECORD_EVIDENCE.to_owned()),
            diagnostic: record.diagnostic,
            exit_code: record.exit_code,
            terminal_output: record.terminal_output,
        }
    }

    /// Whether the command failed: a diagnostic, or a non-zero exit code.
    pub fn indicates_error(&self) -> (r: bool)
        ensures
            r == is_error(self@),
    {
        self.diagnostic.is_some() || match self.exit_code {
            Some(code) => code != 0,
            None => false,
        }
    }

    /// A copy with the same contents.
    pub fn duplicate(&self) -> (r: Self)
        ensures
            r@ == self@,
    {
        ShellCommandObservation {
            command: clone_opt(&self.command),
            evidence: clone_opt(&self.evidence),
            diagnostic: clone_opt(&self.diagnostic),
            exit_code: self.exit_code,
            terminal_output: clone_opt(&self.terminal_output),
        }
    }
}

/// The observations of a batch: one per record, and the fallback used when
/// the shell wrote no record at all.
#[derive(Debug, Clone, PartialEq, Eq)]
pub struct ShellCommandObservations {
    records: Vec<ShellCommandObservation>,
    fallback: ShellCommandObservation,
}

impl View for ShellCommandObservations {
    type V = (Seq<ObservationModel>, ObservationModel);

    closed spec fn view(&self) -> (Seq<ObservationModel>, ObservationModel) {
        (observation_models(self.records@), self.fallback@)
    }
}

/// What a batch says of `command`: its record when there is one; else the
/// fallback when there are no records at all; else nothing.
pub open spec fn observation_for(batch: (Seq<ObservationModel>, ObservationModel), command: Seq<char>) -> ObservationModel {
    match first_for(batch.0, command) {
        Some(o) => o,
        None => if batch.0.len() == 0 {
            batch.1
        } else {
            blank_observation()
        },
    }
}

impl ShellCommandObservations {
    /// One observation per record, in order, and the fallback.
    pub fn new(records: Vec<ShellCommandRecord>, fallback: ShellCommandObservation) -> (r: Self)
        ensures
            r@ == (records@.map_values(|x: ShellCommandRecord| from_record_model(x@)), fallback@),
    {
        let mut out: Vec<ShellCommandObservation> = Vec::new();
        let ghost all = records@;
        let mut i: usize = 0;
        while i < records.len()
            invariant
                i <= records.len(),
                all == records@,
                observation_models(out@) == all.take(i as int).map_values(
                    |x: ShellCommandRecord| from_record_model(x@),
                ),
            decreases records.len() - i,
        {
            let ghost before = observation_models(out@);
            let record = &records[i];
            let o = ShellCommandObservation {
                command: Some(record.command.clone()),
                evidence: Some(QJS_SHELL_COMMAND_RECORD_EVIDENCE.to_owned()),
                diagnostic: clone_opt(&record.diagnostic),
                exit_code: record.exit_code,
                terminal_output: clone_opt(&record.terminal_output),
            };
            out.push(o);
            assert(observation_models(out@) =~= before.push(o@));
            assert(all.take(i + 1).map_values(|x: ShellCommandRecord| from_record_model(x@))
                =~= all.take(i as int).map_values(|x: ShellCommandRecord| from_record_model(x@)).push(
                from_record_model(all[i as int]@),
            ));
            i = i + 1;
        }
        assert(all.take(i as int) =~= all);
        ShellCommandObservations { records: out, fallback }
    }

    /// The first record for `command`, if any.
    pub fn record_for_command(&self, command: &str) -> (r: Option<ShellCommandObservation>)
        ensures
            match r {
                Some(o) => first_for(self@.0, command@) == Some(o@),
                None => first_for(self@.0, command@) is None,
            },
    {
        let ghost all = observation_models(self.records@);
        let target = command.to_owned();
        let mut i: usize = 0;
        assert(all.skip(0) =~= all);
        while i < self.records.len()
            invariant
                i <= self.records.len(),
                all == observation_models(self.records@),
                target@ == command@,
                first_for(all, command@) == first_for(all.skip(i as int), command@),
            decreases self.records.len() - i,
        {
            let record = &self.records[i];
            assert(all.skip(i as int)[0] == record@);
            assert(all.skip(i as int).drop_first() =~= all.skip(i + 1));
            let matches = match &record.command {
                Some(c) => *c == target,
                None => false,
            };
            proof {
                match &record.command {
                    Some(c) => {
                        assert(record@.command == Some(c@));
                        assert(matches == (c@ == command@));
                    },
                    None => {},
                }
            }
            if matches {
                assert(record@.command == Some(command@));
                return Some(record.duplicate());
            }
            assert(record@.command != Some(command@));
            i = i + 1;
        }
        None
    }

    /// What the batch says of `command` (see `observation_for`).
    pub fn for_command(&self, command: &str) -> (r: ShellCommandObservation)
        ensures
            r@ == observation_for(self@, command@),
    {
        match self.record_for_command(command) {
            Some(o) => o,
            None => if self.records.len() == 0 {
                self.fallback.duplicate()
            } else {
                ShellCommandObservation::default()
            },
        }
    }

    /// The observations that came from records, in order.
    pub fn recorded_commands(&self) -> (r: &[ShellCommandObservation])
        ensures
            observation_models(r@) == self@.0,
    {
        self.records.as_slice()
    }
}

} // verus!
