//! The orchestration actor: a single-threaded command processor that owns
//! the configuration and serializes every test execution.
//!
//! The actor is driven by a mailbox: commands are handled strictly one at a
//! time, each one to completion, which is the whole mutual-exclusion story —
//! at most one execution is ever in flight. Handling a command updates the
//! configuration, emits feedback, and asks the caller to perform at most one
//! kind of outside work (watching, running, listing); the caller hands the
//! outcome back and forwards the resulting feedback. A failure never stops
//! the actor: it turns into an `Error` feedback and the mailbox lives on.

use crate::catalog::AvailableTests;
use crate::config::ActionConfig;
use crate::config::GuiConfig;
use crate::config::Only;
use crate::config::TestRunnerOpt;
use crate::errors::error_text;
use crate::errors::Error;
use crate::identity::FullyQualifiedTestCaseId;
use crate::result::TestResult;
use vstd::prelude::*;

verus! {

/// A command sent to the actor.
#[derive(Debug)]
pub enum ActionMessage {
    /// First contact: store the configuration, start watching, scan.
    Setup(GuiConfig),
    /// Select every test and run.
    RunAll,
    /// Run whatever the current selection covers.
    RunSelected,
    /// Replace the configuration; no side effect.
    UpdateConfig(GuiConfig),
    /// Scan for the available tests.
    ReqAvailableTests,
    /// Select one test by its identity.
    SelectSingleTest(FullyQualifiedTestCaseId),
}

/// An event the actor publishes to the observer.
#[derive(Debug)]
pub enum FeedbackMessage {
    /// A fresh catalog.
    AvailableTests(AvailableTests),
    /// The outcome of a run.
    Result(TestResult),
    /// A watched path changed; stale state may be cleared.
    WatchedChanged,
    /// A command failed; the actor goes on.
    Error(String),
}

/// Outside work the caller must perform after a command was handled.
#[derive(Debug)]
pub enum Effect {
    /// Start watching this path for changes.
    StartWatch(String),
    /// Perform the configured action and hand the outcome to
    /// [`on_run_result`].
    RunAction,
    /// Enumerate the available tests and hand the outcome to
    /// [`on_list_result`].
    ListTests,
}

/// The actor's whole mutable state.
#[derive(Debug)]
pub struct Server {
    pub opt: Option<GuiConfig>,
}

// --- the state machine at the specification level ---

/// The configuration with its runner selection replaced, where a runner is
/// configured at all.
pub open spec fn with_only(cfg: Option<GuiConfig>, only: Only) -> Option<GuiConfig> {
    match cfg {
        None => None,
        Some(c) => match c.action {
            Some(ActionConfig::TestRunner(info, _)) => Some(
                GuiConfig {
                    watch_path: c.watch_path,
                    watch: c.watch,
                    action: Some(ActionConfig::TestRunner(info, TestRunnerOpt { only })),
                },
            ),
            _ => Some(c),
        },
    }
}

/// The configuration after one command.
pub open spec fn step_config(cfg: Option<GuiConfig>, msg: ActionMessage) -> Option<GuiConfig> {
    match msg {
        ActionMessage::Setup(c) => Some(c),
        ActionMessage::UpdateConfig(c) => Some(c),
        ActionMessage::RunAll => with_only(cfg, Only::All),
        ActionMessage::SelectSingleTest(id) => with_only(cfg, Only::SingleByFqtc(id)),
        ActionMessage::RunSelected => cfg,
        ActionMessage::ReqAvailableTests => cfg,
    }
}

/// The feedback is one error event carrying this very message.
pub open spec fn is_error_feedback(f: FeedbackMessage, text: Seq<char>) -> bool {
    f matches FeedbackMessage::Error(m) && m@ == text
}

/// The response to a run request: an error when nothing is configured,
/// otherwise the single directive to perform the configured action.
pub open spec fn run_response(
    cfg: Option<GuiConfig>,
    fbs: Seq<FeedbackMessage>,
    effs: Seq<Effect>,
) -> bool {
    match cfg {
        None => effs.len() == 0 && fbs.len() == 1 && is_error_feedback(
            fbs[0],
            error_text(&Error::NoResult),
        ),
        Some(c) => match c.action {
            None => effs.len() == 0 && fbs.len() == 1 && is_error_feedback(
                fbs[0],
                error_text(&Error::NothingToDo),
            ),
            Some(_) => fbs.len() == 0 && effs == seq![Effect::RunAction],
        },
    }
}

/// The response to a scan request: an error when no runner is configured,
/// otherwise the single directive to enumerate the tests.
pub open spec fn list_response(
    cfg: Option<GuiConfig>,
    fbs: Seq<FeedbackMessage>,
    effs: Seq<Effect>,
) -> bool {
    match cfg {
        None => effs.len() == 0 && fbs.len() == 1 && is_error_feedback(
            fbs[0],
            error_text(&Error::NoResult),
        ),
        Some(c) => match c.action {
            Some(ActionConfig::TestRunner(_, _)) => fbs.len() == 0 && effs == seq![
                Effect::ListTests,
            ],
            _ => effs.len() == 0 && fbs.len() == 1 && is_error_feedback(
                fbs[0],
                error_text(&Error::NothingToDo),
            ),
        },
    }
}

/// The response to the first contact: when a watch path is configured, a
/// `WatchedChanged` event and the directive to start the watcher come
/// first; then the response to an immediate scan.
pub open spec fn setup_response(
    c: GuiConfig,
    fbs: Seq<FeedbackMessage>,
    effs: Seq<Effect>,
) -> bool {
    match c.watch_path {
        None => list_response(Some(c), fbs, effs),
        Some(path) => {
            &&& fbs.len() >= 1
            &&& fbs[0] is WatchedChanged
            &&& effs.len() >= 1
            &&& effs[0] matches Effect::StartWatch(p) && p@ == path@
            &&& list_response(Some(c), fbs.skip(1), effs.skip(1))
        },
    }
}

/// What handling one command emits, as a function of the configuration the
/// actor held when the command arrived.
pub open spec fn command_response(
    cfg: Option<GuiConfig>,
    msg: ActionMessage,
    fbs: Seq<FeedbackMessage>,
    effs: Seq<Effect>,
) -> bool {
    match msg {
        ActionMessage::Setup(c) => setup_response(c, fbs, effs),
        ActionMessage::RunAll => run_response(with_only(cfg, Only::All), fbs, effs),
        ActionMessage::RunSelected => run_response(cfg, fbs, effs),
        ActionMessage::UpdateConfig(_) => fbs.len() == 0 && effs.len() == 0,
        ActionMessage::ReqAvailableTests => list_response(cfg, fbs, effs),
        ActionMessage::SelectSingleTest(_) => fbs.len() == 0 && effs.len() == 0,
    }
}

// --- the actor ---

impl Server {
    /// A fresh actor: not configured yet.
    pub fn new() -> (r: Server)
        ensures
            r.opt is None,
    {
        Server { opt: None }
    }

    /// Replace the runner selection, where a runner is configured.
    fn set_only(&mut self, only: Only)
        ensures
            final(self).opt == with_only(old(self).opt, only),
    {
        let cur = self.opt.take();
        match cur {
            None => {},
            Some(c) => {
                let GuiConfig { watch_path, watch, action } = c;
                match action {
                    Some(ActionConfig::TestRunner(info, _)) => {
                        self.opt = Some(
                            GuiConfig {
                                watch_path,
                                watch,
                                action: Some(
                                    ActionConfig::TestRunner(info, TestRunnerOpt { only }),
                                ),
                            },
                        );
                    },
                    other => {
                        self.opt = Some(GuiConfig { watch_path, watch, action: other });
                    },
                }
            },
        }
    }

    /// Ask for one run of the configured action, or explain why none can
    /// happen.
    fn run_once(&self) -> (r: (Vec<FeedbackMessage>, Vec<Effect>))
        ensures
            run_response(self.opt, r.0@, r.1@),
    {
        let mut fbs: Vec<FeedbackMessage> = Vec::new();
        let mut effs: Vec<Effect> = Vec::new();
        match &self.opt {
            None => {
                fbs.push(FeedbackMessage::Error(Error::NoResult.message()));
            },
            Some(c) => match &c.action {
                None => {
                    fbs.push(FeedbackMessage::Error(Error::NothingToDo.message()));
                },
                Some(_) => {
                    effs.push(Effect::RunAction);
                    proof {
                        assert(effs@ =~= seq![Effect::RunAction]);
                    }
                },
            },
        }
        (fbs, effs)
    }

    /// Ask for one scan of the available tests, or explain why none can
    /// happen.
    fn get_available_tests(&self) -> (r: (Vec<FeedbackMessage>, Vec<Effect>))
        ensures
            list_response(self.opt, r.0@, r.1@),
    {
        let mut fbs: Vec<FeedbackMessage> = Vec::new();
        let mut effs: Vec<Effect> = Vec::new();
        match &self.opt {
            None => {
                fbs.push(FeedbackMessage::Error(Error::NoResult.message()));
            },
            Some(c) => match &c.action {
                Some(ActionConfig::TestRunner(_, _)) => {
                    effs.push(Effect::ListTests);
                    proof {
                        assert(effs@ =~= seq![Effect::ListTests]);
                    }
                },
                _ => {
                    fbs.push(FeedbackMessage::Error(Error::NothingToDo.message()));
                },
            },
        }
        (fbs, effs)
    }

    /// Handle one command to completion: update the configuration, and
    /// return the feedback to publish and the outside work to perform, in
    /// order. Every command is accepted in every state; a command that can
    /// do no work reports an error and leaves the actor ready for the next.
    pub fn handle_message(&mut self, msg: ActionMessage) -> (r: (
        Vec<FeedbackMessage>,
        Vec<Effect>,
    ))
        ensures
            final(self).opt == step_config(old(self).opt, msg),
            command_response(old(self).opt, msg, r.0@, r.1@),
    {
        match msg {
            ActionMessage::Setup(config) => {
                let mut fbs: Vec<FeedbackMessage> = Vec::new();
                let mut effs: Vec<Effect> = Vec::new();
                match &config.watch_path {
                    Some(p) => {
                        fbs.push(FeedbackMessage::WatchedChanged);
                        effs.push(Effect::StartWatch(p.clone()));
                    },
                    None => {},
                }
                let ghost watch_fbs = fbs@;
                let ghost watch_effs = effs@;
                self.opt = Some(config);
                let (mut list_fbs, mut list_effs) = self.get_available_tests();
                let ghost lf = list_fbs@;
                let ghost le = list_effs@;
                fbs.append(&mut list_fbs);
                effs.append(&mut list_effs);
                proof {
                    assert(fbs@ == watch_fbs + lf);
                    assert(effs@ == watch_effs + le);
                    if watch_fbs.len() > 0 {
                        assert(fbs@.skip(1) =~= lf);
                        assert(effs@.skip(1) =~= le);
                    } else {
                        assert(fbs@ =~= lf);
                        assert(effs@ =~= le);
                    }
                }
                (fbs, effs)
            },
            ActionMessage::RunAll => {
                self.set_only(Only::All);
                self.run_once()
            },
            ActionMessage::RunSelected => self.run_once(),
            ActionMessage::UpdateConfig(c) => {
                self.opt = Some(c);
                (Vec::new(), Vec::new())
            },
            ActionMessage::ReqAvailableTests => self.get_available_tests(),
            ActionMessage::SelectSingleTest(id) => {
                self.set_only(Only::SingleByFqtc(id));
                (Vec::new(), Vec::new())
            },
        }
    }
}

/// Turn what a run of the configured action returned into the feedback to
/// publish: the outcome itself, or the failure as an error event.
pub fn on_run_result(res: Result<TestResult, Error>) -> (f: FeedbackMessage)
    ensures
        match res {
            Ok(tr) => f == FeedbackMessage::Result(tr),
            Err(e) => is_error_feedback(f, error_text(&e)),
        },
{
    match res {
        Ok(tr) => FeedbackMessage::Result(tr),
        Err(e) => FeedbackMessage::Error(e.message()),
    }
}

/// Turn what a scan returned into the feedback to publish: the catalog, or
/// the failure as an error event.
pub fn on_list_result(res: Result<AvailableTests, Error>) -> (f: FeedbackMessage)
    ensures
        match res {
            Ok(tests) => f == FeedbackMessage::AvailableTests(tests),
            Err(e) => is_error_feedback(f, error_text(&e)),
        },
{
    match res {
        Ok(tests) => FeedbackMessage::AvailableTests(tests),
        Err(e) => FeedbackMessage::Error(e.message()),
    }
}

// --- processing a whole mailbox ---

/// The configuration after a whole queue of commands, drained in arrival
/// order.
pub open spec fn fold_config(cfg: Option<GuiConfig>, msgs: Seq<ActionMessage>) -> Option<
    GuiConfig,
>
    decreases msgs.len(),
{
    if msgs.len() == 0 {
        cfg
    } else {
        fold_config(step_config(cfg, msgs[0]), msgs.skip(1))
    }
}

/// Processing one more command steps the folded configuration once.
proof fn lemma_fold_config_push(cfg: Option<GuiConfig>, msgs: Seq<ActionMessage>, msg: ActionMessage)
    ensures
        fold_config(cfg, msgs.push(msg)) == step_config(fold_config(cfg, msgs), msg),
    decreases msgs.len(),
{
    if msgs.len() == 0 {
        assert(msgs.push(msg).skip(1) =~= Seq::<ActionMessage>::empty());
        assert(msgs.push(msg)[0] == msg);
        assert(fold_config(step_config(cfg, msg), Seq::<ActionMessage>::empty()) == step_config(
            cfg,
            msg,
        ));
    } else {
        assert(msgs.push(msg)[0] == msgs[0]);
        assert(msgs.push(msg).skip(1) =~= msgs.skip(1).push(msg));
        lemma_fold_config_push(step_config(cfg, msgs[0]), msgs.skip(1), msg);
    }
}

impl Server {
    /// Drain a queue of commands in arrival (first-in, first-out) order,
    /// each one handled to completion before the next begins. The response
    /// of the i-th command is exactly the response the state machine
    /// prescribes for the configuration left behind by the commands before
    /// it: feedback is emitted in command order, and the outside work of one
    /// command is all handed out before the next command is looked at, so a
    /// caller that performs it in order never has two runs in flight.
    pub fn handle_messages(&mut self, msgs: Vec<ActionMessage>) -> (r: Vec<
        (Vec<FeedbackMessage>, Vec<Effect>),
    >)
        ensures
            r@.len() == msgs@.len(),
            final(self).opt == fold_config(old(self).opt, msgs@),
            forall|i: int|
                0 <= i < msgs@.len() ==> command_response(
                    fold_config(old(self).opt, msgs@.take(i)),
                    msgs@[i],
                    (#[trigger] r@[i]).0@,
                    r@[i].1@,
                ),
    {
        let ghost all = msgs@;
        let ghost cfg0 = self.opt;
        let mut queue = msgs;
        let mut r: Vec<(Vec<FeedbackMessage>, Vec<Effect>)> = Vec::new();
        let mut i: usize = 0;
        let total = queue.len();
        proof {
            assert(all.len() == total);
            assert(all.take(0) =~= Seq::<ActionMessage>::empty());
        }
        while queue.len() > 0
            invariant
                all.len() <= usize::MAX,
                i + queue@.len() == all.len(),
                queue@ =~= all.skip(i as int),
                r@.len() == i,
                self.opt == fold_config(cfg0, all.take(i as int)),
                forall|k: int|
                    0 <= k < i ==> command_response(
                        fold_config(cfg0, all.take(k)),
                        all[k],
                        (#[trigger] r@[k]).0@,
                        r@[k].1@,
                    ),
            decreases queue@.len(),
        {
            let msg = queue.remove(0);
            proof {
                assert(msg == all[i as int]);
                assert(queue@ =~= all.skip(i + 1));
                assert(all.take(i + 1) =~= all.take(i as int).push(msg));
                lemma_fold_config_push(cfg0, all.take(i as int), msg);
            }
            let response = self.handle_message(msg);
            r.push(response);
            i = i + 1;
        }
        proof {
            assert(all.take(all.len() as int) =~= all);
        }
        r
    }
}

/// A failed command is not fatal: a command whose whole response is one
/// error event leaves the configuration exactly as it was, so the next
/// command is processed from the same state.
pub proof fn lemma_error_non_fatality(
    cfg: Option<GuiConfig>,
    msg: ActionMessage,
    fbs: Seq<FeedbackMessage>,
    effs: Seq<Effect>,
)
    requires
        command_response(cfg, msg, fbs, effs),
        fbs.len() == 1,
        fbs[0] is Error,
        !(msg is Setup),
        !(msg is UpdateConfig),
    ensures
        step_config(cfg, msg) == cfg,
{
}

} // verus!
