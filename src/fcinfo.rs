use vstd::prelude::*;
use crate::datum::{Datum, NullableDatum};

verus! {

/// The SQL `NULL`, as a marker value.
pub struct NULL;

/// The argument block of a function call: one nullable datum per argument,
/// and the flag through which the callee reports a null result.
pub struct FunctionCallInfo {
    pub args: Vec<NullableDatum>,
    pub isnull: bool,
}

/// Whether argument `num` is null.
pub fn pg_arg_is_null(fcinfo: &FunctionCallInfo, num: usize) -> (r: bool)
    requires
        num < fcinfo.args@.len(),
    ensures
        r == fcinfo.args@[num as int].isnull,
{
    fcinfo.args[num].isnull
}

/// Argument `num`, or `None` where it is null.
pub fn pg_getarg_datum(fcinfo: &FunctionCallInfo, num: usize) -> (r: Option<Datum>)
    requires
        num < fcinfo.args@.len(),
    ensures
        fcinfo.args@[num as int].isnull ==> r is None,
        !fcinfo.args@[num as int].isnull ==> r == Some(fcinfo.args@[num as int].value),
{
    if pg_arg_is_null(fcinfo, num) {
        None
    } else {
        Some(fcinfo.args[num].value)
    }
}

/// Argument `num`, whatever its null flag says.
pub fn pg_getarg_datum_raw(fcinfo: &FunctionCallInfo, num: usize) -> (r: Datum)
    requires
        num < fcinfo.args@.len(),
    ensures
        r == fcinfo.args@[num as int].value,
{
    fcinfo.args[num].value
}

/// Argument `num` read as an address, or `None` where it is null.
pub fn pg_getarg_pointer(fcinfo: &FunctionCallInfo, num: usize) -> (r: Option<usize>)
    requires
        num < fcinfo.args@.len(),
    ensures
        fcinfo.args@[num as int].isnull ==> r is None,
        !fcinfo.args@[num as int].isnull ==> r == Some(fcinfo.args@[num as int].value.word()),
{
    match pg_getarg_datum(fcinfo, num) {
        Some(datum) => Some(datum.into_void()),
        None => None,
    }
}

/// Marks the call's result as null and returns the zero datum.
pub fn pg_return_null(fcinfo: &mut FunctionCallInfo) -> (r: Datum)
    ensures
        final(fcinfo).isnull,
        final(fcinfo).args == old(fcinfo).args,
        r.word() == 0,
{
    fcinfo.isnull = true;
    Datum::from(0usize)
}

/// The result of a function that returns nothing: the zero datum.
pub fn pg_return_void() -> (r: Datum)
    ensures
        r.word() == 0,
{
    Datum::from(0usize)
}

} // verus!
