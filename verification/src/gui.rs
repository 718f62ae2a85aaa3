//! The observer's side of the feedback protocol: the state a front end
//! keeps, how one feedback event updates it, and how a configuration is
//! resumed from a stored one.

use crate::catalog::AvailableTests;
use crate::config::GuiConfig;
use crate::result::TestResult;
use crate::server::FeedbackMessage;
use vstd::prelude::*;

verus! {

/// What the observer knows: the latest outcome and the latest catalog.
#[derive(Debug)]
pub struct State {
    pub last_result: Option<TestResult>,
    pub available_tests: Option<AvailableTests>,
}

impl Default for State {
    /// Nothing ran yet, nothing is known.
    fn default() -> (r: Self)
        ensures
            r.last_result is None,
            r.available_tests is None,
    {
        State { last_result: None, available_tests: None }
    }
}

impl State {
    /// Apply one feedback event. A fresh catalog or outcome replaces the
    /// stored one; a watched-path change, when watching is on, clears the
    /// stale outcome and asks the caller to request a full rerun; an error
    /// leaves the state alone (the front end renders the message).
    pub fn handle_message(&mut self, msg: FeedbackMessage, watch: bool) -> (rerun: bool)
        ensures
            match msg {
                FeedbackMessage::AvailableTests(tests) => final(self).available_tests == Some(
                    tests,
                ) && final(self).last_result == old(self).last_result && !rerun,
                FeedbackMessage::Result(result) => final(self).last_result == Some(result)
                    && final(self).available_tests == old(self).available_tests && !rerun,
                FeedbackMessage::WatchedChanged => final(self).available_tests == old(
                    self,
                ).available_tests && rerun == watch && (if watch {
                    final(self).last_result is None
                } else {
                    final(self).last_result == old(self).last_result
                }),
                FeedbackMessage::Error(_) => final(self).last_result == old(self).last_result
                    && final(self).available_tests == old(self).available_tests && !rerun,
            },
    {
        match msg {
            FeedbackMessage::AvailableTests(tests) => {
                self.available_tests = Some(tests);
                false
            },
            FeedbackMessage::Result(result) => {
                self.last_result = Some(result);
                false
            },
            FeedbackMessage::WatchedChanged => {
                if watch {
                    self.last_result = None;
                    true
                } else {
                    false
                }
            },
            FeedbackMessage::Error(_) => false,
        }
    }
}

/// Merge the current configuration with a stored one, the current one
/// winning wherever it says anything.
pub fn merge(config: &mut GuiConfig, stored_config: GuiConfig)
    ensures
        final(config).watch == old(config).watch,
        final(config).watch_path == (if old(config).watch_path is None {
            stored_config.watch_path
        } else {
            old(config).watch_path
        }),
        final(config).action == (if old(config).action is None {
            stored_config.action
        } else {
            old(config).action
        }),
{
    let GuiConfig { watch_path: stored_watch_path, watch: _, action: stored_action } =
        stored_config;
    if config.watch_path.is_none() {
        config.watch_path = stored_watch_path;
    }
    if config.action.is_none() {
        config.action = stored_action;
    }
}

} // verus!
