//! How the members of the dictionaries become algorithms, and results objects.

use vstd::prelude::*;

use crate::queuing::CallbackObject;
use crate::scope::Algorithm;
use crate::value::{iter_result, Message, Value};

verus! {

/// The algorithm that a member of a dictionary stands for: none where the member is
/// absent; a member that is present has to be callable.
pub open spec fn member_algorithm(
    member: Option<CallbackObject>,
    message: Message,
) -> Result<Algorithm, Value> {
    match member {
        None => Ok(Algorithm::Undefined),
        Some(object) => if object.callable {
            Ok(Algorithm::Callback(object.handle))
        } else {
            Err(Value::TypeError(message))
        },
    }
}

/// Takes the algorithm from a member of a dictionary.
pub fn callback_member(member: Option<CallbackObject>, message: Message) -> (algorithm: Result<
    Algorithm,
    Value,
>)
    ensures
        algorithm == member_algorithm(member, message),
{
    match member {
        None => Ok(Algorithm::Undefined),
        Some(object) => if object.callable {
            Ok(Algorithm::Callback(object.handle))
        } else {
            Err(Value::TypeError(message))
        },
    }
}

/// Whether a member of a dictionary is absent or callable.
pub open spec fn member_ok(member: Option<CallbackObject>) -> bool {
    member is Some ==> member->0.callable
}

/// The first of several members that is present and not callable.
pub open spec fn first_bad_member(
    members: Seq<(Option<CallbackObject>, Message)>,
) -> Result<(), Value>
    decreases members.len(),
{
    if members.len() == 0 {
        Ok(())
    } else if member_ok(members[0].0) {
        first_bad_member(members.drop_first())
    } else {
        Err(Value::TypeError(members[0].1))
    }
}

/// Sees to it that every member that is present can be called.
pub fn ensure_callback_members_callable(
    members: &Vec<(Option<CallbackObject>, Message)>,
) -> (result: Result<(), Value>)
    ensures
        result == first_bad_member(members@),
{
    let mut i: usize = 0;
    assert(members@.skip(0) =~= members@);
    while i < members.len()
        invariant
            i <= members.len(),
            first_bad_member(members@) == first_bad_member(members@.skip(i as int)),
        decreases members.len() - i,
    {
        let ghost left = members@.skip(i as int);
        let member: (Option<CallbackObject>, Message) = members[i];
        assert(left[0] == member);
        match member.0 {
            Some(object) => {
                if !object.callable {
                    return Err(Value::TypeError(member.1));
                }
            },
            None => {},
        }
        i = i + 1;
        assert(left.drop_first() =~= members@.skip(i as int));
    }
    Ok(())
}

/// The result object of one step of an iteration.
pub fn create_iter_result(value: Value, done: bool) -> (result: Value)
    ensures
        result == iter_result(value, done),
{
    Value::IterResult(Box::new(value), done)
}

} // verus!
