//! Callbacks for the lifecycle and the progress of a task.

use crate::error::RuntimeError;
use std::sync::Arc;
use vstd::prelude::*;

verus! {

/// Told about the end of a task.
pub trait WorkListener: Send + Sync {
    /// Whether the listener can be told of a completion.
    spec fn takes_complete(&self) -> bool;

    /// Whether the listener can be told of an interruption.
    spec fn takes_interrupt(&self) -> bool;

    /// Whether the listener can be told of `error`.
    spec fn takes_error(&self, error: RuntimeError) -> bool;

    /// The work of the task returned successfully.
    fn on_complete(&self)
        requires
            self.takes_complete(),
    ;

    /// The task was cancelled or interrupted.
    fn on_interrupt(&self)
        requires
            self.takes_interrupt(),
    ;

    /// The task panicked or used up its attempts.
    fn on_error(&self, error: RuntimeError)
        requires
            self.takes_error(error),
    {
    }
}

/// Told about each attempt of a fixed-count task before it runs.
pub trait FixedCountProgress: Send + Sync {
    /// Whether the callback can be told of attempt `current` of `total`.
    spec fn takes_progress(&self, current: u32, total: u32, tag: &str) -> bool;

    /// Called before attempt `current` of `total`.
    fn on_progress(&self, current: u32, total: u32, tag: &str)
        requires
            self.takes_progress(current, total, tag),
    ;
}

/// A listener made of three closures.
pub struct WorkListenerClosure<C, I, E> {
    on_complete: C,
    on_interrupt: I,
    on_error: E,
}

impl<C, I, E> WorkListenerClosure<C, I, E> {
    /// The closure that `on_complete` calls.
    pub closed spec fn complete_callback(&self) -> C {
        self.on_complete
    }

    /// The closure that `on_interrupt` calls.
    pub closed spec fn interrupt_callback(&self) -> I {
        self.on_interrupt
    }

    /// The closure that `on_error` calls.
    pub closed spec fn error_callback(&self) -> E {
        self.on_error
    }
}

impl<C, I, E> WorkListener for WorkListenerClosure<C, I, E> where
    C: Fn() + Send + Sync,
    I: Fn() + Send + Sync,
    E: Fn(RuntimeError) + Send + Sync,
 {
    open spec fn takes_complete(&self) -> bool {
        self.complete_callback().requires(())
    }

    open spec fn takes_interrupt(&self) -> bool {
        self.interrupt_callback().requires(())
    }

    open spec fn takes_error(&self, error: RuntimeError) -> bool {
        self.error_callback().requires((error,))
    }

    fn on_complete(&self)
        ensures
            self.complete_callback().ensures((), ()),
    {
        (self.on_complete)()
    }

    fn on_interrupt(&self)
        ensures
            self.interrupt_callback().ensures((), ()),
    {
        (self.on_interrupt)()
    }

    fn on_error(&self, error: RuntimeError)
        ensures
            self.error_callback().ensures((error,), ()),
    {
        (self.on_error)(error)
    }
}

/// A listener made of two closures, which ignores errors.
pub struct BasicWorkListener<C, I> {
    on_complete: C,
    on_interrupt: I,
}

impl<C, I> BasicWorkListener<C, I> {
    /// The closure that `on_complete` calls.
    pub closed spec fn complete_callback(&self) -> C {
        self.on_complete
    }

    /// The closure that `on_interrupt` calls.
    pub closed spec fn interrupt_callback(&self) -> I {
        self.on_interrupt
    }
}

impl<C, I> WorkListener for BasicWorkListener<C, I> where
    C: Fn() + Send + Sync,
    I: Fn() + Send + Sync,
 {
    open spec fn takes_complete(&self) -> bool {
        self.complete_callback().requires(())
    }

    open spec fn takes_interrupt(&self) -> bool {
        self.interrupt_callback().requires(())
    }

    open spec fn takes_error(&self, error: RuntimeError) -> bool {
        true
    }

    fn on_complete(&self)
        ensures
            self.complete_callback().ensures((), ()),
    {
        (self.on_complete)()
    }

    fn on_interrupt(&self)
        ensures
            self.interrupt_callback().ensures((), ()),
    {
        (self.on_interrupt)()
    }
}

/// A listener of two closures that ignores errors.
pub fn listener<C, I>(on_complete: C, on_interrupt: I) -> (listener: Arc<
    BasicWorkListener<C, I>,
>) where C: Fn() + Send + Sync, I: Fn() + Send + Sync
    ensures
        listener.complete_callback() == on_complete,
        listener.interrupt_callback() == on_interrupt,
{
    Arc::new(BasicWorkListener { on_complete, on_interrupt })
}

/// A listener of three closures.
pub fn listener_with_error<C, I, E>(
    on_complete: C,
    on_interrupt: I,
    on_error: E,
) -> (listener: Arc<WorkListenerClosure<C, I, E>>) where
    C: Fn() + Send + Sync,
    I: Fn() + Send + Sync,
    E: Fn(RuntimeError) + Send + Sync,

    ensures
        listener.complete_callback() == on_complete,
        listener.interrupt_callback() == on_interrupt,
        listener.error_callback() == on_error,
{
    Arc::new(WorkListenerClosure { on_complete, on_interrupt, on_error })
}

impl<F> FixedCountProgress for F where F: Fn(u32, u32, &str) + Send + Sync {
    open spec fn takes_progress(&self, current: u32, total: u32, tag: &str) -> bool {
        self.requires((current, total, tag))
    }

    fn on_progress(&self, current: u32, total: u32, tag: &str)
        ensures
            self.ensures((current, total, tag), ()),
    {
        self(current, total, tag)
    }
}

} // verus!
