use vstd::prelude::*;
use vstd::string::StringExecFns;

verus! {

/// The text shown in place of a value that is not known yet.
pub const NOT_AVAILABLE: &'static str = "<not available>";

/// A status value, or the placeholder when it is unknown.
pub fn option_str(s: Option<String>) -> (r: String)
    ensures
        s is Some ==> r == s.unwrap(),
        s is None ==> r@ == NOT_AVAILABLE@,
{
    match s {
        Some(s) => s,
        None => NOT_AVAILABLE.to_owned(),
    }
}

/// The fix date and time joined by one space, when both are known.
pub fn datetime_str(date: &Option<String>, time: &Option<String>) -> (r: Option<String>)
    ensures
        r is Some <==> (date is Some && time is Some),
        r is Some ==> r.unwrap()@ == date.unwrap()@ + " "@ + time.unwrap()@,
{
    match (date, time) {
        (Some(d), Some(t)) => Some(d.clone().concat(" ").concat(t.as_str())),
        _ => None,
    }
}

} // verus!
