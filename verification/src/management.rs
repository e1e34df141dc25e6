//! The interface through which the engine's side reports what it has seen.

use vstd::prelude::*;
use crate::container::Container;
use crate::text::views_of;

verus! {

/// A holder of dashboard state that takes in what the engine reports.
pub trait ContainerManagement {
    /// The holder's invariant.
    spec fn ready(&self) -> bool;

    /// The ids of the containers that the holder knows.
    spec fn container_ids(&self) -> Set<Seq<char>>;

    /// The lines of the holder's log.
    spec fn log_lines(&self) -> Seq<Seq<char>>;

    /// Forgets the container with the given id.
    fn remove_container(&mut self, id: &str)
        requires
            old(self).ready(),
        ensures
            final(self).ready(),
            final(self).container_ids() == old(self).container_ids().remove(id@),
            final(self).log_lines() == old(self).log_lines(),
    ;

    /// Takes in the record of a container, in place of any earlier record of
    /// the same id.
    fn update_containers(&mut self, new_container: Container)
        requires
            old(self).ready(),
        ensures
            final(self).ready(),
            final(self).container_ids() == old(self).container_ids().insert(new_container.id@),
            final(self).log_lines() == old(self).log_lines(),
    ;

    /// Appends fetched log lines.
    fn add_logs(&mut self, logs: Vec<String>)
        requires
            old(self).ready(),
        ensures
            final(self).ready(),
            final(self).container_ids() == old(self).container_ids(),
            final(self).log_lines() == old(self).log_lines() + views_of(logs@),
    ;

    /// Takes in a piece of output of the shell.
    fn add_tty_output(&mut self, output: String)
        requires
            old(self).ready(),
        ensures
            final(self).ready(),
            final(self).container_ids() == old(self).container_ids(),
    ;
}

} // verus!
