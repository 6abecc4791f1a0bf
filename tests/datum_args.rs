use pgx_nodes::datum::{Datum, NullableDatum};
use pgx_nodes::fcinfo::{
    pg_arg_is_null, pg_getarg_datum, pg_getarg_datum_raw, pg_getarg_pointer, pg_return_null,
    pg_return_void, FunctionCallInfo,
};

fn call_info() -> FunctionCallInfo {
    FunctionCallInfo {
        args: vec![
            NullableDatum { value: Datum::from(42usize), isnull: false },
            NullableDatum { value: Datum::from(7usize), isnull: true },
            NullableDatum { value: Datum::from(0usize), isnull: false },
        ],
        isnull: false,
    }
}

#[test]
fn datum_reads_as_value_and_address() {
    let d = Datum::from(4096usize);
    assert_eq!(d.into_value(), 4096u64);
    assert_eq!(d.into_void(), 4096usize);
    assert!(!d.is_null());
    assert!(Datum::from(0usize).is_null());
}

#[test]
fn argument_null_flags() {
    let f = call_info();
    assert!(!pg_arg_is_null(&f, 0));
    assert!(pg_arg_is_null(&f, 1));
}

#[test]
fn getarg_datum_hides_null_arguments() {
    let f = call_info();
    assert_eq!(pg_getarg_datum(&f, 0), Some(Datum::from(42usize)));
    assert_eq!(pg_getarg_datum(&f, 1), None);
    assert_eq!(pg_getarg_datum(&f, 2), Some(Datum::from(0usize)));
}

#[test]
fn getarg_datum_raw_ignores_null_flag() {
    let f = call_info();
    assert_eq!(pg_getarg_datum_raw(&f, 1).into_value(), 7);
}

#[test]
fn getarg_pointer_gives_address() {
    let f = call_info();
    assert_eq!(pg_getarg_pointer(&f, 0), Some(42usize));
    assert_eq!(pg_getarg_pointer(&f, 1), None);
}

#[test]
fn return_null_sets_flag() {
    let mut f = call_info();
    let d = pg_return_null(&mut f);
    assert!(f.isnull);
    assert!(d.is_null());
    assert_eq!(f.args.len(), 3);
}

#[test]
fn return_void_is_zero() {
    assert_eq!(pg_return_void().into_value(), 0);
}
