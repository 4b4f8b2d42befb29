use vstd::prelude::*;

verus! {

/// A self-describing value tree, the payload format of stored records.
/// `Pairs` is a key/value map, kept in its written order.
///
/// Floating-point numbers are held as their IEEE 754 bit patterns.
#[derive(Debug)]
pub enum Value {
    Nil,
    Boolean(bool),
    /// An integer. The payload format holds those in the range of `i64` or
    /// `u64`; storing a record with any other fails with `InvalidFormat`.
    Integer(i128),
    F32(u32),
    F64(u64),
    String(String),
    Binary(Vec<u8>),
    Array(Vec<Value>),
    Pairs(Vec<(Value, Value)>),
    Ext(i8, Vec<u8>),
}

impl Value {
    pub fn is_nil(&self) -> (r: bool)
        ensures
            r == (*self is Nil),
    {
        match self {
            Value::Nil => true,
            _ => false,
        }
    }

    pub fn as_bool(&self) -> (r: Option<bool>)
        ensures
            r == (match *self {
                Value::Boolean(b) => Some(b),
                _ => None,
            }),
    {
        match self {
            Value::Boolean(b) => Some(*b),
            _ => None,
        }
    }

    /// The integer, when it fits in `i64`.
    pub fn as_i64(&self) -> (r: Option<i64>)
        ensures
            r == (match *self {
                Value::Integer(n) => if i64::MIN <= n <= i64::MAX {
                    Some(n as i64)
                } else {
                    None
                },
                _ => None,
            }),
    {
        match self {
            Value::Integer(n) => if i64::MIN as i128 <= *n && *n <= i64::MAX as i128 {
                Some(*n as i64)
            } else {
                None
            },
            _ => None,
        }
    }

    /// The integer, when it fits in `u64`.
    pub fn as_u64(&self) -> (r: Option<u64>)
        ensures
            r == (match *self {
                Value::Integer(n) => if 0 <= n <= u64::MAX {
                    Some(n as u64)
                } else {
                    None
                },
                _ => None,
            }),
    {
        match self {
            Value::Integer(n) => if 0 <= *n && *n <= u64::MAX as i128 {
                Some(*n as u64)
            } else {
                None
            },
            _ => None,
        }
    }

    /// The bit pattern of a 64-bit float.
    pub fn as_f64_bits(&self) -> (r: Option<u64>)
        ensures
            r == (match *self {
                Value::F64(b) => Some(b),
                _ => None,
            }),
    {
        match self {
            Value::F64(b) => Some(*b),
            _ => None,
        }
    }

    pub fn as_str(&self) -> (r: Option<&str>)
        ensures
            match *self {
                Value::String(s) => r is Some && r->Some_0@ == s@,
                _ => r is None,
            },
    {
        match self {
            Value::String(s) => Some(s.as_str()),
            _ => None,
        }
    }

    pub fn as_array(&self) -> (r: Option<&Vec<Value>>)
        ensures
            match *self {
                Value::Array(a) => r == Some(&a),
                _ => r is None,
            },
    {
        match self {
            Value::Array(a) => Some(a),
            _ => None,
        }
    }
}

} // verus!
