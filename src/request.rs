use vstd::prelude::*;

use crate::error::ServiceError;

verus! {

/// The name of the daemon output whose state says whether playback is shared.
pub open spec fn sharing_output_name() -> Seq<char> {
    "listenwithme"@
}

/// One output device of the daemon, as far as the decision needs it.
pub struct OutputInfo {
    pub name: String,
    pub enabled: bool,
}

/// Whether the first output named like the sharing output is enabled, or
/// `None` when no output carries that name.
pub open spec fn sharing_state(outputs: Seq<OutputInfo>) -> Option<bool>
    decreases outputs.len(),
{
    if outputs.len() == 0 {
        None
    } else if outputs[0].name@ == sharing_output_name() {
        Some(outputs[0].enabled)
    } else {
        sharing_state(outputs.skip(1))
    }
}

/// The comment pairs of a listing, in order, leaving out the entries that
/// could not be read (`None`).
pub open spec fn well_formed_pairs(entries: Seq<Option<(String, String)>>) -> Seq<(String, String)>
    decreases entries.len(),
{
    if entries.len() == 0 {
        Seq::empty()
    } else {
        let rest = well_formed_pairs(entries.drop_last());
        match entries.last() {
            Some(p) => rest.push(p),
            None => rest,
        }
    }
}

/// Looks for the sharing output: whether it is enabled, or a configuration
/// error when the daemon has none.
pub fn sharing_enabled(outputs: &Vec<OutputInfo>) -> (r: Result<bool, ServiceError>)
    ensures
        sharing_state(outputs@) matches Some(b) ==> r == Ok::<bool, ServiceError>(b),
        sharing_state(outputs@) is None ==> (r matches Err(e) && e is Configuration),
{
    let target = "listenwithme".to_owned();
    let mut i: usize = 0;
    proof {
        assert(outputs@.skip(0) =~= outputs@);
    }
    while i < outputs.len()
        invariant
            0 <= i <= outputs.len(),
            target@ == sharing_output_name(),
            sharing_state(outputs@) == sharing_state(outputs@.skip(i as int)),
        decreases outputs.len() - i,
    {
        proof {
            assert(outputs@.skip(i as int)[0] == outputs@[i as int]);
            assert(outputs@.skip(i as int).skip(1) =~= outputs@.skip(i + 1));
        }
        if outputs[i].name == target {
            return Ok(outputs[i].enabled);
        }
        i = i + 1;
    }
    proof {
        assert(outputs@.skip(i as int).len() == 0);
    }
    Err(ServiceError::Configuration)
}

/// Keeps the comment pairs that were read, in order, and drops the entries
/// that could not be.
pub fn keep_well_formed(entries: &Vec<Option<(String, String)>>) -> (r: Vec<(String, String)>)
    ensures
        r@ == well_formed_pairs(entries@),
{
    let mut out: Vec<(String, String)> = Vec::new();
    let mut i: usize = 0;
    while i < entries.len()
        invariant
            0 <= i <= entries.len(),
            out@ == well_formed_pairs(entries@.subrange(0, i as int)),
        decreases entries.len() - i,
    {
        proof {
            assert(entries@.subrange(0, i + 1).drop_last() =~= entries@.subrange(0, i as int));
        }
        match &entries[i] {
            Some(pair) => {
                let key = pair.0.clone();
                let value = pair.1.clone();
                out.push((key, value));
            },
            None => {},
        }
        i = i + 1;
    }
    proof {
        assert(entries@.subrange(0, entries@.len() as int) =~= entries@);
    }
    out
}

/// What a finished request answers.
pub enum Outcome<S, G> {
    /// The sharing output is off: nobody can listen.
    Unavailable,
    /// Sharing is on: who listens, what the player does and what plays.
    Available(Report<S, G>),
    /// Something failed on the way.
    Failed(ServiceError),
}

/// The full answer when sharing is on. `S` is the daemon's player status,
/// `G` its description of a song.
pub struct Report<S, G> {
    pub listeners: usize,
    pub status: S,
    pub song: Option<G>,
    /// The comments of the current song; `None` when nothing is current.
    pub comments: Option<Vec<(String, String)>>,
}

/// Where a request stands: what it waits for from the daemon, with what it
/// has gathered so far, or how it ended.
pub enum Stage<S, G> {
    Outputs,
    Status,
    CurrentSong(S),
    Comments(S, G),
    Finished(Outcome<S, G>),
}

/// What the daemon answered to the last thing asked of it.
pub enum Event<S, G> {
    Outputs(Vec<OutputInfo>),
    Status(S),
    CurrentSong(Option<G>),
    /// The comments of the current song; `None` marks an entry that could
    /// not be read.
    Comments(Vec<Option<(String, String)>>),
    /// The connection or a command failed; carries the cause.
    DaemonFailed(String),
}

/// What the caller has to do next for a request.
pub enum Action {
    FetchOutputs,
    FetchStatus,
    FetchCurrentSong,
    /// Fetch the comments of the song that `Request::pending_song` gives.
    FetchComments,
    /// Answer with the outcome.
    Finish,
}

/// One request after the presence registry was updated: it asks the daemon
/// for its outputs, and only if sharing is on, for status, current song and
/// that song's comments.
pub struct Request<S, G> {
    pub listeners: usize,
    pub stage: Stage<S, G>,
}

/// `stage` has finished with a full answer made of these parts.
pub open spec fn reports<S, G>(
    stage: Stage<S, G>,
    listeners: usize,
    status: S,
    song: Option<G>,
    comments: Option<Seq<(String, String)>>,
) -> bool {
    match stage {
        Stage::Finished(Outcome::Available(rep)) => {
            &&& rep.listeners == listeners
            &&& rep.status == status
            &&& rep.song == song
            &&& match (rep.comments, comments) {
                (Some(c), Some(d)) => c@ == d,
                (None, None) => true,
                _ => false,
            }
        },
        _ => false,
    }
}

/// The step that an answer from the daemon takes a request through. An
/// answer that the request does not wait for leaves it as it is.
pub open spec fn steps_to<S, G>(req: Request<S, G>, event: Event<S, G>, next: Request<S, G>) -> bool {
    &&& next.listeners == req.listeners
    &&& match event {
        Event::DaemonFailed(m) => if req.stage is Finished {
            next.stage == req.stage
        } else {
            next.stage == Stage::<S, G>::Finished(Outcome::Failed(ServiceError::Daemon(m)))
        },
        Event::Outputs(list) => if req.stage is Outputs {
            match sharing_state(list@) {
                None => next.stage == Stage::<S, G>::Finished(
                    Outcome::Failed(ServiceError::Configuration),
                ),
                Some(false) => next.stage == Stage::<S, G>::Finished(Outcome::Unavailable),
                Some(true) => next.stage == Stage::<S, G>::Status,
            }
        } else {
            next.stage == req.stage
        },
        Event::Status(st) => if req.stage is Status {
            next.stage == Stage::<S, G>::CurrentSong(st)
        } else {
            next.stage == req.stage
        },
        Event::CurrentSong(song) => match req.stage {
            Stage::CurrentSong(st) => match song {
                None => reports(next.stage, req.listeners, st, None, None),
                Some(g) => next.stage == Stage::<S, G>::Comments(st, g),
            },
            _ => next.stage == req.stage,
        },
        Event::Comments(list) => match req.stage {
            Stage::Comments(st, g) => reports(
                next.stage,
                req.listeners,
                st,
                Some(g),
                Some(well_formed_pairs(list@)),
            ),
            _ => next.stage == req.stage,
        },
    }
}

impl<S, G> Request<S, G> {
    /// A request that has counted `listeners` present and now turns to the
    /// daemon's outputs.
    pub fn start(listeners: usize) -> (r: Request<S, G>)
        ensures
            r.listeners == listeners,
            r.stage is Outputs,
    {
        Request { listeners, stage: Stage::Outputs }
    }

    /// What the caller has to do next.
    pub fn next_action(&self) -> (r: Action)
        ensures
            self.stage is Outputs <==> r is FetchOutputs,
            self.stage is Status <==> r is FetchStatus,
            self.stage is CurrentSong <==> r is FetchCurrentSong,
            self.stage is Comments <==> r is FetchComments,
            self.stage is Finished <==> r is Finish,
    {
        match &self.stage {
            Stage::Outputs => Action::FetchOutputs,
            Stage::Status => Action::FetchStatus,
            Stage::CurrentSong(_) => Action::FetchCurrentSong,
            Stage::Comments(_, _) => Action::FetchComments,
            Stage::Finished(_) => Action::Finish,
        }
    }

    /// The song whose comments are awaited, if the request waits for them.
    pub fn pending_song(&self) -> (r: Option<&G>)
        ensures
            self.stage matches Stage::Comments(_, g) ==> r == Some(&g),
            !(self.stage is Comments) ==> r is None,
    {
        match &self.stage {
            Stage::Comments(_, g) => Some(g),
            _ => None,
        }
    }

    /// Takes the request one step on with the daemon's answer.
    pub fn step(self, event: Event<S, G>) -> (r: Request<S, G>)
        ensures
            steps_to(self, event, r),
    {
        let listeners = self.listeners;
        let stage = self.stage;
        match event {
            Event::DaemonFailed(m) => match stage {
                Stage::Finished(o) => Request { listeners, stage: Stage::Finished(o) },
                _ => Request {
                    listeners,
                    stage: Stage::Finished(Outcome::Failed(ServiceError::Daemon(m))),
                },
            },
            Event::Outputs(list) => match stage {
                Stage::Outputs => {
                    let next = match sharing_enabled(&list) {
                        Err(e) => Stage::Finished(Outcome::Failed(e)),
                        Ok(false) => Stage::Finished(Outcome::Unavailable),
                        Ok(true) => Stage::Status,
                    };
                    Request { listeners, stage: next }
                },
                other => Request { listeners, stage: other },
            },
            Event::Status(st) => match stage {
                Stage::Status => Request { listeners, stage: Stage::CurrentSong(st) },
                other => Request { listeners, stage: other },
            },
            Event::CurrentSong(song) => match stage {
                Stage::CurrentSong(st) => match song {
                    None => Request {
                        listeners,
                        stage: Stage::Finished(
                            Outcome::Available(
                                Report { listeners, status: st, song: None, comments: None },
                            ),
                        ),
                    },
                    Some(g) => Request { listeners, stage: Stage::Comments(st, g) },
                },
                other => Request { listeners, stage: other },
            },
            Event::Comments(list) => match stage {
                Stage::Comments(st, g) => {
                    let comments = keep_well_formed(&list);
                    Request {
                        listeners,
                        stage: Stage::Finished(
                            Outcome::Available(
                                Report {
                                    listeners,
                                    status: st,
                                    song: Some(g),
                                    comments: Some(comments),
                                },
                            ),
                        ),
                    }
                },
                other => Request { listeners, stage: other },
            },
        }
    }

    /// The answer, once the request has finished.
    pub fn into_outcome(self) -> (r: Option<Outcome<S, G>>)
        ensures
            self.stage matches Stage::Finished(o) ==> r == Some(o),
            !(self.stage is Finished) ==> r is None,
    {
        match self.stage {
            Stage::Finished(o) => Some(o),
            _ => None,
        }
    }
}

} // verus!
