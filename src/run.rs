//! A sequence of remote calls, one per item, that stops at the first
//! rejected call. The caller performs each call the run asks for and
//! reports the answer back.

use vstd::prelude::*;
use crate::dedup::names_of;
use crate::lesson::Lesson;
use crate::sync::{RemoteMaterial, SyncError};

verus! {

/// An answer as plain values: the success flag and the service's message.
pub type Reply = (bool, Seq<char>);

/// The number of calls made, and the name and message of the rejected call
/// that ended the run, if any.
pub type RunState = (nat, Option<(Seq<char>, Seq<char>)>);

/// The state after one more answer. A run that failed or has made a call
/// for every item asks for no more and is left as it is.
pub open spec fn run_step(names: Seq<Seq<char>>, st: RunState, reply: Reply) -> RunState {
    if st.1 is Some || st.0 >= names.len() {
        st
    } else if reply.0 {
        (st.0 + 1, None)
    } else {
        (st.0 + 1, Some((names[st.0 as int], reply.1)))
    }
}

/// The state after a sequence of answers, from a run that made no call.
pub open spec fn run_after(names: Seq<Seq<char>>, replies: Seq<Reply>) -> RunState
    decreases replies.len(),
{
    if replies.len() == 0 {
        (0, None)
    } else {
        run_step(names, run_after(names, replies.drop_last()), replies.last())
    }
}

/// The state of a run over named items.
pub struct BatchRun {
    pub names: Vec<String>,
    pub sent: usize,
    pub failure: Option<(String, String)>,
}

impl BatchRun {
    pub open spec fn name_views(&self) -> Seq<Seq<char>> {
        self.names@.map_values(|s: String| s@)
    }

    pub open spec fn state(&self) -> RunState {
        (
            self.sent as nat,
            match self.failure {
                Some(f) => Some((f.0@, f.1@)),
                None => None,
            },
        )
    }

    pub open spec fn wf(&self) -> bool {
        self.sent <= self.names@.len()
    }

    /// A run over the given names that has made no call yet.
    pub fn new(names: Vec<String>) -> (r: BatchRun)
        ensures
            r.names@ == names@,
            r.state() == (0nat, None::<(Seq<char>, Seq<char>)>),
            r.wf(),
    {
        BatchRun { names, sent: 0, failure: None }
    }

    /// The run of create calls for a list of lessons.
    pub fn for_lessons(lessons: &Vec<Lesson>) -> (r: BatchRun)
        ensures
            r.name_views() == names_of(lessons@),
            r.state() == (0nat, None::<(Seq<char>, Seq<char>)>),
            r.wf(),
    {
        let mut names: Vec<String> = Vec::new();
        let n = lessons.len();
        let mut i: usize = 0;
        while i < n
            invariant
                n == lessons@.len(),
                i <= n,
                names@.map_values(|s: String| s@) == names_of(lessons@).take(i as int),
            decreases n - i,
        {
            let ghost prev = names@;
            names.push(lessons[i].name.clone());
            assert(names@.map_values(|s: String| s@) =~= prev.map_values(|s: String| s@).push(
                lessons@[i as int].name@,
            ));
            assert(names_of(lessons@).take(i + 1) =~= names_of(lessons@).take(i as int).push(
                lessons@[i as int].name@,
            ));
            i += 1;
        }
        assert(names_of(lessons@).take(n as int) =~= names_of(lessons@));
        BatchRun::new(names)
    }

    /// The run of delete calls for a list of listed materials.
    pub fn for_materials(materials: &Vec<RemoteMaterial>) -> (r: BatchRun)
        ensures
            r.name_views() == materials@.map_values(|m: RemoteMaterial| m.name@),
            r.state() == (0nat, None::<(Seq<char>, Seq<char>)>),
            r.wf(),
    {
        let ghost want = materials@.map_values(|m: RemoteMaterial| m.name@);
        let mut names: Vec<String> = Vec::new();
        let n = materials.len();
        let mut i: usize = 0;
        while i < n
            invariant
                n == materials@.len(),
                want == materials@.map_values(|m: RemoteMaterial| m.name@),
                i <= n,
                names@.map_values(|s: String| s@) == want.take(i as int),
            decreases n - i,
        {
            let ghost prev = names@;
            names.push(materials[i].name.clone());
            assert(names@.map_values(|s: String| s@) =~= prev.map_values(|s: String| s@).push(
                materials@[i as int].name@,
            ));
            assert(want.take(i + 1) =~= want.take(i as int).push(materials@[i as int].name@));
            i += 1;
        }
        assert(want.take(n as int) =~= want);
        BatchRun::new(names)
    }

    /// The item whose call comes next; `None` once a call was rejected or
    /// every item had its call.
    pub fn next_index(&self) -> (r: Option<usize>)
        requires
            self.wf(),
        ensures
            r == (if self.failure is None && self.sent < self.names@.len() {
                Some(self.sent)
            } else {
                None::<usize>
            }),
    {
        if self.failure.is_none() && self.sent < self.names.len() {
            Some(self.sent)
        } else {
            None
        }
    }

    /// Takes the answer to the call for item `sent`.
    pub fn record_reply(&mut self, success: bool, error: String)
        requires
            old(self).wf(),
            old(self).failure is None,
            old(self).sent < old(self).names@.len(),
        ensures
            final(self).names@ == old(self).names@,
            final(self).wf(),
            final(self).state() == run_step(old(self).name_views(), old(self).state(), (success, error@)),
    {
        let n = self.names.len();
        assert(self.sent < n);
        let next = self.sent + 1;
        if !success {
            let name = self.names[self.sent].clone();
            self.failure = Some((name, error));
        }
        self.sent = next;
    }

    /// The outcome of an upload run: `UploadFailed` with the lesson's name
    /// and the message where a call was rejected.
    pub fn finish_upload(self) -> (r: Result<(), SyncError>)
        ensures
            self.failure is None ==> r is Ok,
            self.failure matches Some(f) ==> (r matches Err(SyncError::UploadFailed(n, m)) && n@
                == f.0@ && m@ == f.1@),
    {
        match self.failure {
            None => Ok(()),
            Some((n, m)) => Err(SyncError::UploadFailed(n, m)),
        }
    }

    /// The outcome of a remove run: `RemoveFailed` with the material's name
    /// and the message where a call was rejected.
    pub fn finish_remove(self) -> (r: Result<(), SyncError>)
        ensures
            self.failure is None ==> r is Ok,
            self.failure matches Some(f) ==> (r matches Err(SyncError::RemoveFailed(n, m)) && n@
                == f.0@ && m@ == f.1@),
    {
        match self.failure {
            None => Ok(()),
            Some((n, m)) => Err(SyncError::RemoveFailed(n, m)),
        }
    }
}

proof fn lemma_run_prefix(names: Seq<Seq<char>>, replies: Seq<Reply>, j: int, k: int)
    requires
        0 <= j < names.len(),
        j < replies.len(),
        forall|i: int| 0 <= i < j ==> (#[trigger] replies[i]).0,
        !replies[j].0,
        0 <= k <= replies.len(),
    ensures
        k <= j ==> run_after(names, replies.take(k)) == (k as nat, None::<(Seq<char>, Seq<char>)>),
        k > j ==> run_after(names, replies.take(k)) == ((j + 1) as nat, Some((names[j], replies[j].1))),
    decreases k,
{
    if k > 0 {
        lemma_run_prefix(names, replies, j, k - 1);
        assert(replies.take(k).drop_last() =~= replies.take(k - 1));
        assert(replies.take(k).last() == replies[k - 1]);
    }
}

/// Where every call before the `j`-th was accepted and the `j`-th was
/// rejected, the run has made exactly `j + 1` calls, none for the items
/// after the `j`-th, and failed with the `j`-th name and the rejection's
/// message, whatever answers would follow.
pub proof fn lemma_run_stops_at_first_rejection(names: Seq<Seq<char>>, replies: Seq<Reply>, j: int)
    requires
        0 <= j < names.len(),
        j < replies.len(),
        forall|i: int| 0 <= i < j ==> (#[trigger] replies[i]).0,
        !replies[j].0,
    ensures
        run_after(names, replies) == ((j + 1) as nat, Some((names[j], replies[j].1))),
{
    lemma_run_prefix(names, replies, j, replies.len() as int);
    assert(replies.take(replies.len() as int) =~= replies);
}

proof fn lemma_run_all_accepted_prefix(names: Seq<Seq<char>>, replies: Seq<Reply>, k: int)
    requires
        forall|i: int| 0 <= i < replies.len() ==> (#[trigger] replies[i]).0,
        0 <= k <= replies.len(),
    ensures
        run_after(names, replies.take(k)) == (if k <= names.len() {
            k as nat
        } else {
            names.len()
        }, None::<(Seq<char>, Seq<char>)>),
    decreases k,
{
    if k > 0 {
        lemma_run_all_accepted_prefix(names, replies, k - 1);
        assert(replies.take(k).drop_last() =~= replies.take(k - 1));
        assert(replies.take(k).last() == replies[k - 1]);
    }
}

/// Where every call is accepted, the run makes one call per item, in
/// order, and none after the last item, and ends without a failure.
pub proof fn lemma_run_all_accepted(names: Seq<Seq<char>>, replies: Seq<Reply>)
    requires
        forall|i: int| 0 <= i < replies.len() ==> (#[trigger] replies[i]).0,
        replies.len() >= names.len(),
    ensures
        run_after(names, replies) == (names.len(), None::<(Seq<char>, Seq<char>)>),
{
    lemma_run_all_accepted_prefix(names, replies, replies.len() as int);
    assert(replies.take(replies.len() as int) =~= replies);
}

} // verus!
