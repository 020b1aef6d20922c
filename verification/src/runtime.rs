//! The share of an environment in the asynchronous runtime of the process.
use vstd::prelude::*;

use crate::calls::{Call, CallView};

verus! {

/// Setting up the share of an environment in the runtime, one request at a time.
///
/// Nothing that the requests report is looked at.
#[derive(Debug, Clone, Copy, PartialEq, Eq)]
pub enum RuntimeSetup {
    /// The runtime is started, unless it runs already.
    Ensure,
    /// The environment is counted among those that use the runtime.
    Count,
    /// The environment is told to give the runtime up when it ends.
    Hook,
    /// The environment has its share.
    Done,
}

impl RuntimeSetup {
    /// The request that is under way.
    pub open spec fn spec_call(self) -> CallView
        recommends
            !(self is Done),
    {
        match self {
            RuntimeSetup::Ensure => CallView::EnsureRuntime,
            RuntimeSetup::Count => CallView::CountRuntimeUser,
            RuntimeSetup::Hook => CallView::AddRuntimeCleanupHook,
            RuntimeSetup::Done => arbitrary(),
        }
    }

    /// The setup after the request that is under way has been answered.
    pub open spec fn spec_next(self) -> RuntimeSetup {
        match self {
            RuntimeSetup::Ensure => RuntimeSetup::Count,
            RuntimeSetup::Count => RuntimeSetup::Hook,
            RuntimeSetup::Hook | RuntimeSetup::Done => RuntimeSetup::Done,
        }
    }

    /// The requests from the one that is under way to the last.
    pub open spec fn ahead(self) -> Seq<CallView> {
        match self {
            RuntimeSetup::Ensure => seq![
                CallView::EnsureRuntime,
                CallView::CountRuntimeUser,
                CallView::AddRuntimeCleanupHook,
            ],
            RuntimeSetup::Count => seq![
                CallView::CountRuntimeUser,
                CallView::AddRuntimeCleanupHook,
            ],
            RuntimeSetup::Hook => seq![CallView::AddRuntimeCleanupHook],
            RuntimeSetup::Done => Seq::empty(),
        }
    }

    /// The request that is under way.
    pub fn call(&self) -> (call: Call)
        requires
            !(self is Done),
        ensures
            call@ == self.spec_call(),
    {
        match *self {
            RuntimeSetup::Ensure => Call::EnsureRuntime,
            RuntimeSetup::Count => Call::CountRuntimeUser,
            RuntimeSetup::Hook => Call::AddRuntimeCleanupHook,
            RuntimeSetup::Done => {
                assert(false);
                Call::AddRuntimeCleanupHook
            },
        }
    }

    /// The setup after the request that is under way has been answered.
    pub fn next(&self) -> (setup: RuntimeSetup)
        ensures
            setup == self.spec_next(),
    {
        match *self {
            RuntimeSetup::Ensure => RuntimeSetup::Count,
            RuntimeSetup::Count => RuntimeSetup::Hook,
            RuntimeSetup::Hook => RuntimeSetup::Done,
            RuntimeSetup::Done => RuntimeSetup::Done,
        }
    }
}

} // verus!
