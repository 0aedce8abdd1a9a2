//! Named counter fields of one counter group.
//!
//! A counter group carries a small set of named fields, each holding an
//! unsigned 64-bit counter, a short text (the zone name), or a value of
//! some other kind that the rate engine does not use. Lookup is by the
//! first field carrying the wanted name.

use vstd::prelude::*;

verus! {

/// The field names the rate engine reads from a counter group.
#[derive(PartialEq, Eq, Structural, Clone, Copy, Debug)]
pub enum FieldName {
    Reads,
    Writes,
    Nread,
    Nwritten,
    Rtime,
    Wtime,
    Rlentime,
    Wlentime,
    DelayCnt,
    DelayTime,
    Zonename,
}

/// A field's value: an unsigned 64-bit counter, a short text (bytes),
/// or a value of a kind the engine has no use for.
#[derive(Clone, Debug)]
pub enum FieldValue {
    Num(u64),
    Text(Vec<u8>),
    Other,
}

/// One named field of a counter group.
#[derive(Clone, Debug)]
pub struct Field {
    pub name: FieldName,
    pub value: FieldValue,
}

/// The value of the first field named `name`, if any.
pub open spec fn find_spec(fields: Seq<Field>, name: FieldName) -> Option<FieldValue>
    decreases fields.len(),
{
    if fields.len() == 0 {
        None
    } else if fields[0].name == name {
        Some(fields[0].value)
    } else {
        find_spec(fields.skip(1), name)
    }
}

/// Find the first field named `name`.
pub fn find_field<'a>(fields: &'a Vec<Field>, name: FieldName) -> (r: Option<&'a FieldValue>)
    ensures
        match r {
            Some(v) => find_spec(fields@, name) == Some(*v),
            None => find_spec(fields@, name) is None,
        },
{
    let mut i: usize = 0;
    proof {
        assert(fields@.skip(0) =~= fields@);
    }
    while i < fields.len()
        invariant
            i <= fields@.len(),
            find_spec(fields@, name) == find_spec(fields@.skip(i as int), name),
        decreases fields@.len() - i,
    {
        if fields[i].name == name {
            assert(fields@.skip(i as int)[0] == fields@[i as int]);
            return Some(&fields[i].value);
        }
        assert(fields@.skip(i as int).skip(1) =~= fields@.skip(i + 1));
        assert(fields@.skip(i as int)[0] == fields@[i as int]);
        i = i + 1;
    }
    assert(fields@.skip(i as int) =~= Seq::<Field>::empty());
    None
}

/// Read a u64 counter out of a field value, if it is one.
pub fn read_u64(data: &FieldValue) -> (r: Option<u64>)
    ensures
        r == (match *data {
            FieldValue::Num(v) => Some(v),
            _ => None::<u64>,
        }),
{
    match data {
        FieldValue::Num(v) => Some(*v),
        _ => None,
    }
}

/// Read a text value (such as a zone name) out of a field value, if it is one.
pub fn read_string<'a>(data: &'a FieldValue) -> (r: Option<&'a Vec<u8>>)
    ensures
        match r {
            Some(v) => *data matches FieldValue::Text(t) && t == *v,
            None => !(*data matches FieldValue::Text(_)),
        },
{
    match data {
        FieldValue::Text(v) => Some(v),
        _ => None,
    }
}

} // verus!
