use vstd::prelude::*;
use crate::expr::{NameList, StmtList};

verus! {

/// A function value: its parameters, its body, and the index of the frame
/// it was created in, which calls use as the parent of their own frame.
#[derive(Debug)]
pub struct RloxFunction {
    pub parameters: NameList,
    pub body: StmtList,
    pub closure: usize,
}

impl RloxFunction {
    pub fn new(parameters: NameList, body: StmtList, closure: usize) -> (r: RloxFunction)
        ensures
            r == (RloxFunction { parameters, body, closure }),
    {
        RloxFunction { parameters, body, closure }
    }
}

/// The `clock` native: no arguments, the current time in milliseconds.
#[derive(Debug)]
pub struct Clock {}

/// A class declaration's name; the language has no class semantics.
#[derive(Debug)]
pub struct RloxClass {
    pub name: String,
}

} // verus!

verus! {

/// Relies on std::time::SystemTime::now and duration_since(UNIX_EPOCH):
/// the milliseconds since the epoch; nothing is promised of the value.
#[verifier::external_body]
pub(crate) fn clock_millis() -> (r: i64) {
    match std::time::SystemTime::now().duration_since(std::time::UNIX_EPOCH) {
        Ok(d) => d.as_millis() as i64,
        Err(_) => 0,
    }
}


/// The clock readings `o` begin with the readings `p`.
pub open spec fn extends(o: Seq<i64>, p: Seq<i64>) -> bool {
    p.len() <= o.len() && o.subrange(0, p.len() as int) == p
}

pub broadcast proof fn lemma_extends_trans(o: Seq<i64>, p: Seq<i64>, q: Seq<i64>)
    requires
        #[trigger] extends(o, p),
        #[trigger] extends(p, q),
    ensures
        extends(o, q),
{
    assert(o.subrange(0, q.len() as int) =~= p.subrange(0, q.len() as int));
}

pub proof fn lemma_extends_refl(o: Seq<i64>)
    ensures
        extends(o, o),
{
    assert(o.subrange(0, o.len() as int) =~= o);
}

} // verus!
