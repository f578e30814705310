//! What the application does with the paths of each launch event: its own
//! arguments at startup, the arguments that a duplicate launch relays to the
//! running instance, the paths of a platform open-files event, and a query
//! from the presentation layer.
use crate::store::{add_pending_files, get_pending_files, nothing_lost_nothing_twice, PendingFileStore};
use vstd::prelude::*;

verus! {

/// The candidate file paths of a launch's arguments: all of them but the
/// first, which names the executable.
pub open spec fn candidate_paths(args: Seq<String>) -> Seq<String> {
    if args.len() == 0 {
        args
    } else {
        args.drop_first()
    }
}

/// Drops the executable's name from a launch's arguments and returns the rest,
/// in order, unfiltered.
pub fn launch_paths(args: Vec<String>) -> (r: Vec<String>)
    ensures
        r@ == candidate_paths(args@),
{
    let mut rest = args;
    if rest.len() > 0 {
        rest.remove(0);
        assert(rest@ =~= candidate_paths(args@));
    }
    rest
}

/// Something that happened to the running instance.
#[derive(Debug, PartialEq, Eq)]
pub enum LaunchEvent {
    /// This process started with these arguments.
    Started { args: Vec<String> },
    /// A duplicate launch relayed its arguments to this instance.
    SecondInstance { args: Vec<String> },
    /// The platform asked this instance to open these local paths.
    Opened { paths: Vec<String> },
    /// The presentation layer asked for the pending paths.
    Query,
}

/// What the caller is to do once the store has been updated, with the store's
/// lock released.
#[derive(Debug, PartialEq, Eq)]
pub enum Reaction {
    /// Nothing further.
    Nothing,
    /// Signal the main window, without payload, that files may be pending.
    Notify,
    /// Answer the query with these paths.
    Reply { files: Vec<String> },
}

/// Applies one launch event to the store. Startup arguments are queued
/// silently; relayed arguments and opened paths are queued and call for a
/// notification; a query drains the store and answers with what it held.
pub fn handle_event(store: &mut PendingFileStore, event: LaunchEvent) -> (r: Reaction)
    ensures
        match event {
            LaunchEvent::Started { args } => final(store)@ == old(store)@ + candidate_paths(args@)
                && r is Nothing,
            LaunchEvent::SecondInstance { args } => final(store)@ == old(store)@
                + candidate_paths(args@) && r is Notify,
            LaunchEvent::Opened { paths } => final(store)@ == old(store)@ + paths@ && r is Notify,
            LaunchEvent::Query => final(store)@ == Seq::<String>::empty() && r is Reply && r->files@
                == old(store)@,
        },
        nothing_lost_nothing_twice(*final(store)),
{
    match event {
        LaunchEvent::Started { args } => {
            add_pending_files(store, launch_paths(args));
            Reaction::Nothing
        },
        LaunchEvent::SecondInstance { args } => {
            add_pending_files(store, launch_paths(args));
            Reaction::Notify
        },
        LaunchEvent::Opened { paths } => {
            add_pending_files(store, paths);
            Reaction::Notify
        },
        LaunchEvent::Query => Reaction::Reply { files: get_pending_files(store) },
    }
}

} // verus!
