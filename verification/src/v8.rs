//! Opaque handles to what the script engine owns.
//!
//! The dispatcher never looks inside an engine value. It carries handles
//! from the call that made them to the call that uses them, and it refuses
//! to use the handle of an engine that was torn down.

use vstd::prelude::*;

verus! {

/// Anything that can be handed to the engine as a value.
pub trait ValueT {
    fn as_val(&self) -> &Value;
}

/// A value owned by the engine, known by the slot it lives in.
#[derive(Clone, Copy, Debug, PartialEq, Eq, Structural)]
pub struct Value {
    pub slot: u64,
}

/// A callable value owned by the engine.
#[derive(Clone, Copy, Debug, PartialEq, Eq, Structural)]
pub struct Function {
    pub value: Value,
}

/// A non-owning reference to one running engine instance.
#[derive(Debug)]
pub struct Context {
    instance: u32,
    live: bool,
}

impl ValueT for Value {
    fn as_val(&self) -> (val: &Value)
        ensures
            *val == *self,
    {
        self
    }
}

impl ValueT for Function {
    fn as_val(&self) -> (val: &Value)
        ensures
            *val == self.value,
    {
        &self.value
    }
}

impl Function {
    /// Views a value as a function. The engine decides at call time whether
    /// the value can be called.
    #[allow(non_snake_case)]
    pub fn Cast(val: &Value) -> (function: Function)
        ensures
            function.value == *val,
    {
        Function { value: *val }
    }
}

impl Context {
    pub closed spec fn instance(&self) -> u32 {
        self.instance
    }

    pub closed spec fn live(&self) -> bool {
        self.live
    }

    /// The handle of the engine instance `instance`, made once when the
    /// instance is created.
    pub fn new(instance: u32) -> (context: Context)
        ensures
            context.instance() == instance,
            context.live(),
    {
        Context { instance, live: true }
    }

    pub fn instance_id(&self) -> (id: u32)
        ensures
            id == self.instance(),
    {
        self.instance
    }

    pub fn is_live(&self) -> (live: bool)
        ensures
            live == self.live(),
    {
        self.live
    }

    /// Marks the engine as torn down. No call reaches it afterwards.
    pub fn invalidate(&mut self)
        ensures
            !final(self).live(),
            final(self).instance() == old(self).instance(),
    {
        self.live = false;
    }
}

} // verus!
