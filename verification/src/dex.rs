//! The registry of host classes and the planning of calls into the host
//! runtime.
//!
//! A call into the host runtime names its class and carries a method
//! signature. Before anything is sent across, the signature is parsed and
//! the class is looked up; the call itself is then made with the return
//! type that the signature declares.

use jni::errors::Error;
use jni::signature::{JavaType, TypeSignature};
use vstd::prelude::*;

verus! {

#[verifier::external_type_specification]
#[verifier::external_body]
pub struct ExJavaType(JavaType);

#[verifier::external_type_specification]
#[verifier::external_body]
pub struct ExError(Error);

/// The return type that the method signature `sig` declares, or `None`
/// where `sig` does not start with a method signature.
pub uninterp spec fn signature_return(sig: Seq<char>) -> Option<JavaType>;

/// Parses a method signature with `jni::signature::TypeSignature::from_str`
/// and keeps the return type. Not proved here: the outcome is a function of
/// the text alone.
#[verifier::external_body]
fn parse_return_type(sig: &str) -> (parsed: Result<JavaType, Error>)
    ensures
        match parsed {
            Ok(ret) => signature_return(sig@) == Some(ret),
            Err(_) => signature_return(sig@) is None,
        },
{
    TypeSignature::from_str(sig).map(|parsed| parsed.ret)
}

/// Why a call into the host runtime cannot be made.
#[derive(Clone, Copy, Debug, PartialEq, Eq, Structural)]
pub enum CallError {
    /// The method signature does not parse.
    BadSignature,
    /// The class was never registered.
    UnknownClass,
}

/// A static call that is ready to be made.
#[derive(Debug)]
pub struct StaticCall {
    /// Where the class reference stands in the registry.
    pub slot: usize,
    /// The return type to call the method with.
    pub ret: JavaType,
}

/// The registry of host classes: each registered class name with the
/// reference that the host runtime gave for it. A name is registered at
/// most once.
#[derive(Debug)]
pub struct ClassTable<R> {
    names: Vec<String>,
    refs: Vec<R>,
}

pub open spec fn name_views(names: Seq<String>) -> Seq<Seq<char>> {
    names.map_values(|name: String| name@)
}

impl<R> ClassTable<R> {
    /// The registered names, in the order of registration.
    pub closed spec fn names(&self) -> Seq<Seq<char>> {
        name_views(self.names@)
    }

    /// The references, each at the index of its name.
    pub closed spec fn refs(&self) -> Seq<R> {
        self.refs@
    }

    pub open spec fn wf(&self) -> bool {
        &&& self.names().len() == self.refs().len()
        &&& self.names().no_duplicates()
    }

    pub open spec fn registered(&self, name: Seq<char>) -> bool {
        self.names().contains(name)
    }

    pub fn new() -> (table: ClassTable<R>)
        ensures
            table.wf(),
            table.names() == Seq::<Seq<char>>::empty(),
            table.refs() == Seq::<R>::empty(),
    {
        let table = ClassTable { names: Vec::new(), refs: Vec::new() };
        assert(table.names() =~= Seq::<Seq<char>>::empty());
        table
    }

    pub fn len(&self) -> (n: usize)
        ensures
            n == self.names().len(),
    {
        self.names.len()
    }

    /// Where `name` stands in the registry, if it is registered.
    pub fn position(&self, name: &String) -> (slot: Option<usize>)
        requires
            self.wf(),
        ensures
            match slot {
                Some(slot) => slot < self.names().len() && self.names()[slot as int] == name@,
                None => !self.registered(name@),
            },
    {
        let n: usize = self.names.len();
        let mut i: usize = 0;
        while i < n
            invariant
                n == self.names.len(),
                0 <= i <= n,
                forall|j: int| 0 <= j < i ==> self.names()[j] != name@,
            decreases n - i,
        {
            if self.names[i] == *name {
                return Some(i);
            }
            i += 1;
        }
        None
    }

    pub fn contains_key(&self, name: &String) -> (registered: bool)
        requires
            self.wf(),
        ensures
            registered == self.registered(name@),
    {
        self.position(name).is_some()
    }

    /// The reference registered under `name`.
    pub fn get(&self, name: &String) -> (class_ref: Option<&R>)
        requires
            self.wf(),
        ensures
            class_ref is Some <==> self.registered(name@),
            class_ref is Some ==> exists|slot: int|
                0 <= slot < self.names().len() && self.names()[slot] == name@ && self.refs()[slot]
                    == *class_ref.unwrap(),
    {
        match self.position(name) {
            Some(slot) => {
                assert(self.names()[slot as int] == name@ && self.refs()[slot as int]
                    == self.refs@[slot as int]);
                Some(&self.refs[slot])
            },
            None => None,
        }
    }

    /// The reference at `slot`.
    pub fn class_ref(&self, slot: usize) -> (class_ref: &R)
        requires
            self.wf(),
            slot < self.names().len(),
        ensures
            *class_ref == self.refs()[slot as int],
    {
        &self.refs[slot]
    }

    /// Registers `class_ref` under `name`. A name that is registered
    /// already keeps its reference: the call returns `false` and changes
    /// nothing.
    pub fn insert(&mut self, name: String, class_ref: R) -> (inserted: bool)
        requires
            old(self).wf(),
        ensures
            final(self).wf(),
            inserted == !old(self).registered(name@),
            inserted ==> final(self).names() == old(self).names().push(name@),
            inserted ==> final(self).refs() == old(self).refs().push(class_ref),
            !inserted ==> final(self).names() == old(self).names(),
            !inserted ==> final(self).refs() == old(self).refs(),
    {
        if self.position(&name).is_some() {
            return false;
        }
        self.names.push(name);
        self.refs.push(class_ref);
        assert(self.names() =~= old(self).names().push(name@));
        true
    }

    /// Empties the registry.
    pub fn clear(&mut self)
        ensures
            final(self).wf(),
            final(self).names() == Seq::<Seq<char>>::empty(),
            final(self).refs() == Seq::<R>::empty(),
    {
        self.names.clear();
        self.refs.clear();
        assert(self.names() =~= Seq::<Seq<char>>::empty());
    }
}

/// Turns a failed result into `None`.
pub fn unwrap_js<T, E>(res: Result<T, E>) -> (value: Option<T>)
    ensures
        match res {
            Ok(result) => value == Some(result),
            Err(_) => value is None,
        },
{
    match res {
        Ok(result) => Some(result),
        Err(_) => None,
    }
}

/// The return type for a call with an already parsed signature.
pub fn checked_return_type(parsed: Result<JavaType, Error>) -> (ret: Result<JavaType, CallError>)
    ensures
        match parsed {
            Ok(parsed_ret) => ret == Ok::<JavaType, CallError>(parsed_ret),
            Err(_) => ret == Err::<JavaType, CallError>(CallError::BadSignature),
        },
{
    match parsed {
        Ok(ret) => Ok(ret),
        Err(_) => Err(CallError::BadSignature),
    }
}

/// The return type that a method call with signature `sig` is made with.
pub fn return_type(sig: &str) -> (ret: Result<JavaType, CallError>)
    ensures
        match signature_return(sig@) {
            Some(declared) => ret == Ok::<JavaType, CallError>(declared),
            None => ret == Err::<JavaType, CallError>(CallError::BadSignature),
        },
{
    checked_return_type(parse_return_type(sig))
}

/// Plans a static call with an already parsed signature: a signature that
/// did not parse is reported first, then a class that is not registered.
pub fn resolve_static_call<R>(
    table: &ClassTable<R>,
    class: &String,
    parsed: Result<JavaType, Error>,
) -> (call: Result<StaticCall, CallError>)
    requires
        table.wf(),
    ensures
        match call {
            Ok(call) => {
                &&& parsed == Ok::<JavaType, Error>(call.ret)
                &&& call.slot < table.names().len()
                &&& table.names()[call.slot as int] == class@
            },
            Err(CallError::BadSignature) => parsed is Err,
            Err(CallError::UnknownClass) => parsed is Ok && !table.registered(class@),
        },
{
    let ret = match parsed {
        Ok(ret) => ret,
        Err(_) => {
            return Err(CallError::BadSignature);
        },
    };
    match table.position(class) {
        Some(slot) => Ok(StaticCall { slot, ret }),
        None => Err(CallError::UnknownClass),
    }
}

/// Plans the static call of a method with signature `sig` on `class`.
pub fn plan_static_call<R>(table: &ClassTable<R>, class: &String, sig: &str) -> (call: Result<
    StaticCall,
    CallError,
>)
    requires
        table.wf(),
    ensures
        match call {
            Ok(call) => {
                &&& signature_return(sig@) == Some(call.ret)
                &&& call.slot < table.names().len()
                &&& table.names()[call.slot as int] == class@
            },
            Err(CallError::BadSignature) => signature_return(sig@) is None,
            Err(CallError::UnknownClass) => signature_return(sig@) is Some && !table.registered(
                class@,
            ),
        },
{
    resolve_static_call(table, class, parse_return_type(sig))
}

} // verus!
