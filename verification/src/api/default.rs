//! The default set of capabilities of a process.

use crate::module::LunaticModule;
use vstd::prelude::*;

verus! {

/// What the default capabilities of a process are made from: the receiving
/// end of the channel that carries its context, if it was spawned with one,
/// and the module it runs.
pub struct DefaultApi<R> {
    context_receiver: Option<R>,
    module: LunaticModule,
}

impl<R> DefaultApi<R> {
    /// The context receiver that the capabilities are made from.
    pub closed spec fn context_receiver(self) -> Option<R> {
        self.context_receiver
    }

    /// The module that the capabilities are made from.
    pub closed spec fn module(self) -> LunaticModule {
        self.module
    }

    /// The default capabilities for a process that runs `module`.
    pub fn new(context_receiver: Option<R>, module: LunaticModule) -> (api: Self)
        ensures
            api.context_receiver() == context_receiver,
            api.module() == module,
    {
        Self { context_receiver, module }
    }

    /// Hands out what the capabilities are made from, to bind them.
    pub fn into_parts(self) -> (parts: (Option<R>, LunaticModule))
        ensures
            parts.0 == self.context_receiver(),
            parts.1 == self.module(),
    {
        (self.context_receiver, self.module)
    }
}

} // verus!
