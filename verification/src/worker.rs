//! The export worker's decision core: a state machine that discovers the
//! executable once, then services export requests from a message queue.
//!
//! The worker starts in `Discovering`. A successful discovery makes it
//! `Ready`; a failed one makes it `Terminated`, and a terminated worker never
//! reads its queue again. In `Ready`, each `Export` message yields one fresh
//! launch of the external process — no merging, no cap — and `Quit` (or a
//! closed queue) ends the worker at once. The waiting, the channel and the
//! actual process spawn are I/O and live outside this crate; they feed events
//! in and carry the decided launches out.

use vstd::prelude::*;

use crate::args::ArgsModel;
use crate::args::InkscapeArgs;
use crate::cmd::CmdModel;
use crate::cmd::InkscapeCmd;

verus! {

/// Mathematical model of a queue message.
pub ghost enum MessageModel {
    Quit,
    Export { args: ArgsModel },
}

/// One message to the worker: export with the given arguments, or quit.
#[derive(Debug)]
pub enum InkscapeMessage {
    Quit,
    Export(InkscapeArgs),
}

impl View for InkscapeMessage {
    type V = MessageModel;

    open spec fn view(&self) -> MessageModel {
        match self {
            InkscapeMessage::Quit => MessageModel::Quit,
            InkscapeMessage::Export(args) => MessageModel::Export { args: args@ },
        }
    }
}

impl DeepView for InkscapeMessage {
    type V = MessageModel;

    open spec fn deep_view(&self) -> MessageModel {
        self.view()
    }
}

/// Mathematical model of the worker's state.
pub ghost enum StateModel {
    Discovering,
    Ready { exe: Seq<char> },
    Terminated,
}

/// The worker's state: waiting for discovery, ready with a resolved
/// executable path, or terminated for good.
#[derive(Debug)]
pub enum WorkerState {
    Discovering,
    Ready { exe_path: String },
    Terminated,
}

impl View for WorkerState {
    type V = StateModel;

    open spec fn view(&self) -> StateModel {
        match self {
            WorkerState::Discovering => StateModel::Discovering,
            WorkerState::Ready { exe_path } => StateModel::Ready { exe: exe_path@ },
            WorkerState::Terminated => StateModel::Terminated,
        }
    }
}

/// The argument sets of the messages a ready worker services, in queue order:
/// every export before the first quit, and nothing from the quit on.
pub open spec fn spec_serviced(msgs: Seq<MessageModel>) -> Seq<ArgsModel>
    decreases msgs.len(),
{
    if msgs.len() == 0 {
        Seq::<ArgsModel>::empty()
    } else {
        match msgs[0] {
            MessageModel::Quit => Seq::<ArgsModel>::empty(),
            MessageModel::Export { args } => seq![args] + spec_serviced(msgs.drop_first()),
        }
    }
}

/// One launch of the executable `exe` for each argument set, in order.
pub open spec fn spec_launches(exe: Seq<char>, served: Seq<ArgsModel>) -> Seq<CmdModel> {
    served.map_values(|a: ArgsModel| CmdModel { exe, args: a })
}

/// The launches a whole worker run performs, given the discovery outcome and
/// the queued messages: none at all when discovery failed, else one launch of
/// the discovered executable per serviced export.
pub open spec fn spec_worker_launches(found: Option<Seq<char>>, msgs: Seq<MessageModel>) -> Seq<
    CmdModel,
> {
    match found {
        None => Seq::<CmdModel>::empty(),
        Some(exe) => spec_launches(exe, spec_serviced(msgs)),
    }
}

impl WorkerState {
    /// The initial state: discovery has not finished yet.
    pub fn new() -> (s: WorkerState)
        ensures
            s@ is Discovering,
    {
        WorkerState::Discovering
    }

    /// Applies the discovery outcome: a found executable makes the worker
    /// ready, a failed search terminates it for good.
    pub fn on_discovery(self, found: Option<String>) -> (next: WorkerState)
        requires
            self@ is Discovering,
        ensures
            next@ == (match found {
                Some(exe) => StateModel::Ready { exe: exe@ },
                None => StateModel::Terminated,
            }),
    {
        match found {
            Some(exe_path) => WorkerState::Ready { exe_path },
            None => WorkerState::Terminated,
        }
    }

    /// Services one message of a ready worker: an export yields a fresh
    /// launch of the discovered executable and leaves the worker ready; a
    /// quit yields nothing and terminates it.
    pub fn on_message(&mut self, msg: InkscapeMessage) -> (launch: Option<InkscapeCmd>)
        requires
            old(self)@ is Ready,
        ensures
            match msg@ {
                MessageModel::Export { args } => {
                    &&& final(self)@ == old(self)@
                    &&& launch is Some
                    &&& launch->0@ == (CmdModel { exe: old(self)@->Ready_exe, args })
                },
                MessageModel::Quit => {
                    &&& final(self)@ is Terminated
                    &&& launch is None
                },
            },
    {
        match msg {
            InkscapeMessage::Export(args) => {
                let exe_path = match self {
                    WorkerState::Ready { exe_path } => exe_path.clone(),
                    _ => unreached(),
                };
                Some(InkscapeCmd::new(exe_path, args))
            },
            InkscapeMessage::Quit => {
                *self = WorkerState::Terminated;
                None
            },
        }
    }
}

/// Runs a whole worker to completion over a queue that is already written
/// down: applies the discovery outcome, then services the messages in order,
/// and returns the launches it decided on. This is the worker loop with its
/// waiting stripped away.
pub fn process_messages(found: Option<String>, msgs: &Vec<InkscapeMessage>) -> (launches: Vec<
    InkscapeCmd,
>)
    ensures
        launches.deep_view() == spec_worker_launches(found.deep_view(), msgs.deep_view()),
{
    let ghost all = msgs.deep_view();
    let mut launches: Vec<InkscapeCmd> = Vec::new();
    match WorkerState::new().on_discovery(found) {
        WorkerState::Ready { exe_path } => {
            let ghost exe = exe_path@;
            let mut state = WorkerState::Ready { exe_path };
            let mut k: usize = 0;
            let mut quit = false;
            proof {
                assert(all.skip(0) =~= all);
                assert(launches.deep_view() + spec_launches(exe, spec_serviced(all))
                    =~= spec_launches(exe, spec_serviced(all)));
            }
            while k < msgs.len() && !quit
                invariant
                    0 <= k <= msgs.len(),
                    all == msgs.deep_view(),
                    all.len() == msgs.len(),
                    !quit ==> state@ == (StateModel::Ready { exe }),
                    !quit ==> launches.deep_view() + spec_launches(
                        exe,
                        spec_serviced(all.skip(k as int)),
                    ) == spec_launches(exe, spec_serviced(all)),
                    quit ==> launches.deep_view() == spec_launches(exe, spec_serviced(all)),
                decreases msgs.len() - k,
            {
                let ghost rest = all.skip(k as int);
                proof {
                    assert(rest.drop_first() =~= all.skip(k as int + 1));
                }
                let msg = match &msgs[k] {
                    InkscapeMessage::Quit => InkscapeMessage::Quit,
                    InkscapeMessage::Export(args) => InkscapeMessage::Export(args.snapshot()),
                };
                proof {
                    assert(msg@ == all[k as int]);
                }
                match state.on_message(msg) {
                    Some(cmd) => {
                        launches.push(cmd);
                        proof {
                            assert(spec_serviced(rest) == seq![all[k as int]->Export_args]
                                + spec_serviced(rest.drop_first()));
                            assert(launches.deep_view() + spec_launches(
                                exe,
                                spec_serviced(rest.drop_first()),
                            ) =~= spec_launches(exe, spec_serviced(all)));
                        }
                    },
                    None => {
                        quit = true;
                        proof {
                            assert(spec_serviced(rest) =~= Seq::<ArgsModel>::empty());
                            assert(launches.deep_view() =~= spec_launches(
                                exe,
                                spec_serviced(all),
                            ));
                        }
                    },
                }
                k = k + 1;
            }
            proof {
                if !quit {
                    assert(all.skip(all.len() as int) =~= Seq::<MessageModel>::empty());
                    assert(launches.deep_view() =~= spec_launches(exe, spec_serviced(all)));
                }
            }
            launches
        },
        _ => {
            proof {
                assert(launches.deep_view() =~= spec_worker_launches(found.deep_view(), all));
            }
            launches
        },
    }
}

/// A quit that arrives before any export ends the worker with no launch at
/// all, whatever discovery found.
pub proof fn lemma_quit_before_export(found: Option<Seq<char>>, msgs: Seq<MessageModel>)
    requires
        msgs.len() > 0,
        msgs[0] is Quit,
    ensures
        spec_worker_launches(found, msgs) == Seq::<CmdModel>::empty(),
{
    match found {
        None => {},
        Some(exe) => {
            assert(spec_serviced(msgs) == Seq::<ArgsModel>::empty());
            assert(spec_worker_launches(found, msgs) =~= Seq::<CmdModel>::empty());
        },
    }
}

/// A queue of exports alone is serviced in full and in order: each message
/// yields its own launch, with its own argument set.
pub proof fn lemma_each_export_launches(exe: Seq<char>, msgs: Seq<MessageModel>)
    requires
        forall|i: int| 0 <= i < msgs.len() ==> msgs[i] is Export,
    ensures
        spec_worker_launches(Some(exe), msgs).len() == msgs.len(),
        forall|i: int| 0 <= i < msgs.len() ==> spec_worker_launches(Some(exe), msgs)[i]
            == (CmdModel { exe, args: msgs[i]->Export_args }),
    decreases msgs.len(),
{
    if msgs.len() == 0 {
    } else {
        assert(msgs[0] is Export);
        assert forall|i: int| 0 <= i < msgs.drop_first().len() implies msgs.drop_first()[i]
            is Export by {
            assert(msgs.drop_first()[i] == msgs[i + 1]);
        }
        lemma_each_export_launches(exe, msgs.drop_first());
        assert(spec_serviced(msgs) == seq![msgs[0]->Export_args] + spec_serviced(msgs.drop_first()));
        assert forall|i: int| 0 <= i < msgs.len() implies spec_launches(exe, spec_serviced(msgs))[i]
            == (CmdModel { exe, args: msgs[i]->Export_args }) by {
            if i > 0 {
                assert(spec_serviced(msgs)[i] == spec_serviced(msgs.drop_first())[i - 1]);
                assert(spec_worker_launches(Some(exe), msgs.drop_first())[i - 1] == (CmdModel {
                    exe,
                    args: msgs.drop_first()[i - 1]->Export_args,
                }));
            }
        }
    }
}

/// After a failed discovery the worker launches nothing, whatever is queued:
/// the queue of a terminated worker is never read.
pub proof fn lemma_discovery_failure_no_launches(msgs: Seq<MessageModel>)
    ensures
        spec_worker_launches(None, msgs) == Seq::<CmdModel>::empty(),
{
}

} // verus!
