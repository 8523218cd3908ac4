//! Subsystems that are made when they are first used.

use crate::formatting::show_lazy;
use vstd::prelude::*;

verus! {

/// A value that is made when it is first asked for.
pub struct SyncLazy<T> {
    name: &'static str,
    cell: Option<T>,
}

impl<T> core::fmt::Debug for SyncLazy<T> {
    /// Show the name, and whether the value is made.
    fn fmt(&self, f: &mut core::fmt::Formatter<'_>) -> (r: core::fmt::Result) {
        show_lazy(f, "SyncLazy", self.name, self.cell.is_some())
    }
}

impl<T> View for SyncLazy<T> {
    type V = Option<T>;

    closed spec fn view(&self) -> Option<T> {
        self.cell
    }
}

impl<T> SyncLazy<T> {
    /// The name of the value.
    pub closed spec fn label(&self) -> Seq<char> {
        self.name@
    }

    /// A value that is not yet made.
    pub fn new(name: &'static str) -> (r: Self)
        ensures
            r@ is None,
            r.label() == name@,
    {
        SyncLazy { name, cell: None }
    }

    /// The value, made with `init` if that was not done before.
    pub fn get_or_init<F: FnOnce() -> T>(&mut self, init: F) -> (r: &T)
        requires
            old(self)@ is None ==> call_requires(init, ()),
        ensures
            final(self)@ == Some(*r),
            final(self).label() == old(self).label(),
            match old(self)@ {
                Some(value) => *r == value,
                None => call_ensures(init, (), *r),
            },
    {
        if self.cell.is_none() {
            let value = init();
            self.cell = Some(value);
        }
        self.cell.as_ref().unwrap()
    }

    /// Whether the value is made.
    pub fn is_initialized(&self) -> (r: bool)
        ensures
            r == (self@ is Some),
    {
        self.cell.is_some()
    }

    /// The value, if it is made.
    pub fn try_get(&self) -> (r: Option<&T>)
        ensures
            match r {
                Some(value) => self@ == Some(*value),
                None => self@ is None,
            },
    {
        self.cell.as_ref()
    }

    /// The name of the value.
    pub fn name(&self) -> (r: &'static str)
        ensures
            r@ == self.label(),
    {
        self.name
    }
}

/// A subsystem that is made when it is first used, by steps that can fail.
///
/// The caller runs the steps that wait, and hands over what they came to.
pub struct LazySubsystem<T> {
    name: &'static str,
    cell: Option<T>,
}

impl<T> core::fmt::Debug for LazySubsystem<T> {
    /// Show the name, and whether the value is made.
    fn fmt(&self, f: &mut core::fmt::Formatter<'_>) -> (r: core::fmt::Result) {
        show_lazy(f, "LazySubsystem", self.name, self.cell.is_some())
    }
}

impl<T> View for LazySubsystem<T> {
    type V = Option<T>;

    closed spec fn view(&self) -> Option<T> {
        self.cell
    }
}

impl<T> LazySubsystem<T> {
    /// The name of the subsystem.
    pub closed spec fn label(&self) -> Seq<char> {
        self.name@
    }

    /// A subsystem that is not yet made.
    pub fn new(name: &'static str) -> (r: Self)
        ensures
            r@ is None,
            r.label() == name@,
    {
        LazySubsystem { name, cell: None }
    }

    /// The subsystem, made with `init` if that was not done before.
    pub fn get<F: FnOnce() -> T>(&mut self, init: F) -> (r: &T)
        requires
            old(self)@ is None ==> call_requires(init, ()),
        ensures
            final(self)@ == Some(*r),
            final(self).label() == old(self).label(),
            match old(self)@ {
                Some(value) => *r == value,
                None => call_ensures(init, (), *r),
            },
    {
        if self.cell.is_none() {
            let value = init();
            self.cell = Some(value);
        }
        self.cell.as_ref().unwrap()
    }

    /// The subsystem, made with `init` if that was not done before.
    ///
    /// Where `init` fails, the subsystem is still not made, and a later call tries again.
    pub fn get_or_try_init<E, F: FnOnce() -> Result<T, E>>(&mut self, init: F) -> (r: Result<
        &T,
        E,
    >)
        requires
            old(self)@ is None ==> call_requires(init, ()),
        ensures
            final(self).label() == old(self).label(),
            match old(self)@ {
                Some(value) => r == Ok::<&T, E>(&value) && final(self)@ == old(self)@,
                None => match r {
                    Ok(value) => call_ensures(init, (), Ok(*value)) && final(self)@ == Some(
                        *value,
                    ),
                    Err(error) => call_ensures(init, (), Err(error)) && final(self)@ is None,
                },
            },
    {
        if self.cell.is_none() {
            match init() {
                Ok(value) => {
                    self.cell = Some(value);
                },
                Err(error) => {
                    return Err(error);
                },
            }
        }
        Ok(self.cell.as_ref().unwrap())
    }

    /// Whether the subsystem is made.
    pub fn is_initialized(&self) -> (r: bool)
        ensures
            r == (self@ is Some),
    {
        self.cell.is_some()
    }

    /// The subsystem, if it is made.
    pub fn try_get(&self) -> (r: Option<&T>)
        ensures
            match r {
                Some(value) => self@ == Some(*value),
                None => self@ is None,
            },
    {
        self.cell.as_ref()
    }

    /// The name of the subsystem.
    pub fn name(&self) -> (r: &'static str)
        ensures
            r@ == self.label(),
    {
        self.name
    }
}

/// The language server.
pub type LazyLsp<T> = LazySubsystem<T>;

/// The clients of the model context protocol.
pub type LazyMcp<T> = LazySubsystem<T>;

/// The embeddings.
pub type LazyEmbeddings<T> = LazySubsystem<T>;

/// The three subsystems that are made when they are first used.
pub fn create_lazy_subsystems<L, M, E>() -> (r: (LazyLsp<L>, LazyMcp<M>, LazyEmbeddings<E>))
    ensures
        r.0@ is None,
        r.1@ is None,
        r.2@ is None,
        r.0.label() == "LSP"@,
        r.1.label() == "MCP"@,
        r.2.label() == "Embeddings"@,
{
    (LazySubsystem::new("LSP"), LazySubsystem::new("MCP"), LazySubsystem::new("Embeddings"))
}

} // verus!
