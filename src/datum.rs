use vstd::prelude::*;

verus! {

/// The opaque thing a pointer-shaped `Datum` refers to. It carries no data of
/// its own: a `Datum` only ever holds its address.
pub struct DatumBlob {
    _data: (),
}

/// A machine word that the database uses either as a value or as an address.
#[derive(Clone, Copy, Debug, PartialEq, Eq, Structural)]
pub struct Datum(usize);

impl Datum {
    /// The word the datum holds.
    pub closed spec fn word(self) -> usize {
        self.0
    }

    /// The datum read as a value.
    pub fn into_value(self) -> (r: u64)
        ensures
            r == self.word() as u64,
    {
        self.0 as u64
    }

    /// The datum read as an address.
    pub fn into_void(self) -> (r: usize)
        ensures
            r == self.word(),
    {
        self.0
    }

    /// Whether the datum, read as an address, is null.
    pub fn is_null(self) -> (r: bool)
        ensures
            r == (self.word() == 0),
    {
        self.0 == 0
    }
}

impl From<usize> for Datum {
    fn from(val: usize) -> (r: Datum)
        ensures
            r.word() == val,
    {
        Datum(val)
    }
}

impl vstd::std_specs::convert::FromSpecImpl<usize> for Datum {
    open spec fn obeys_from_spec() -> bool {
        true
    }

    closed spec fn from_spec(v: usize) -> Datum {
        Datum(v)
    }
}

/// A datum together with its null flag, as it stands in an argument block.
#[derive(Clone, Copy, Debug)]
pub struct NullableDatum {
    pub value: Datum,
    pub isnull: bool,
}

} // verus!
