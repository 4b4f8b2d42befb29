use vstd::prelude::*;

use crate::error::Error;
use crate::error::ErrorKind;
use crate::value::Value;

verus! {

/// A record type stored with a version, convertible from the adjacent
/// previous and next versions of the same record.
///
/// Version 0 is reserved for "no schema": `PREV_VERSION` and `NEXT_VERSION`
/// are 0 when there is no adjacent version.
pub trait Schema: Sized {
    /// The version this type handles; greater than zero.
    const VERSION: u64;

    /// The version of the previous schema (`VERSION - 1`), or 0 if none.
    const PREV_VERSION: u64;

    /// The version of the next schema (`VERSION + 1`), or 0 if none.
    const NEXT_VERSION: u64;

    fn version() -> (r: u64)
        ensures
            r == Self::VERSION,
    ;

    /// Reads a value written at this type's own version.
    fn load(val: Value) -> Result<Self, Error>;

    /// Writes this value in this type's own version.
    fn save(self) -> Result<Value, Error>;

    /// Reads `val`, stored at `version`, as the previous schema and upgrades
    /// it: `upgrade_from::<Self>` for a type with a previous version.
    /// Called only with `version` below `VERSION`.
    fn from_prev(version: u64, val: Value) -> Result<Self, Error>;

    /// Reads `val`, stored at `version`, as the next schema and downgrades
    /// it: `downgrade_from::<Self>` for a type with a next version.
    /// Called only with `version` above `VERSION`.
    fn from_next(version: u64, val: Value) -> Result<Self, Error>;
}

/// A schema with a previous version that it upgrades from.
pub trait SchemaUpgrade: Schema {
    type PrevVersion: Schema;

    /// Converts a value of the previous version into this one.
    fn upgrade(val: Self::PrevVersion) -> Result<Self, Error>;
}

/// A schema with a next version that it downgrades from.
pub trait SchemaDowngrade: Schema {
    type NextVersion: Schema;

    /// Converts a value of the next version into this one.
    fn downgrade(val: Self::NextVersion) -> Result<Self, Error>;
}

/// What the resolver does with a value stored at `stored` when it is asked
/// for the schema at `version`, whose neighbours are at `prev` and `next`.
pub enum Step {
    /// Deserialize directly.
    Load,
    /// Read as the previous schema and upgrade.
    FromPrev,
    /// Read as the next schema and downgrade.
    FromNext,
    /// No adjacent chain reaches the stored version.
    Invalid,
}

/// The decision `load` takes: deserialize at the same version; step down only
/// to an adjacent previous version and never from version 0; step up only to
/// an adjacent next version and never from `u64::MAX`.
pub open spec fn resolve_step(stored: u64, version: u64, prev: u64, next: u64) -> Step {
    if stored == version {
        Step::Load
    } else if stored < version {
        if prev + 1 != version || stored == 0 {
            Step::Invalid
        } else {
            Step::FromPrev
        }
    } else {
        if version + 1 != next || stored == u64::MAX {
            Step::Invalid
        } else {
            Step::FromNext
        }
    }
}

/// The step `load::<T>` takes for a value stored at `stored`.
pub open spec fn step_for<T: Schema>(stored: u64) -> Step {
    resolve_step(stored, T::VERSION, T::PREV_VERSION, T::NEXT_VERSION)
}

/// Deserializes `val`, stored at `version`, into `T`, upgrading or
/// downgrading through adjacent schemas as required.
pub fn load<T: Schema>(version: u64, val: Value) -> (r: Result<T, Error>)
    ensures
        step_for::<T>(version) is Load ==> T::load.ensures((val,), r),
        step_for::<T>(version) is FromPrev ==> T::from_prev.ensures((version, val), r),
        step_for::<T>(version) is FromNext ==> T::from_next.ensures((version, val), r),
        step_for::<T>(version) is Invalid ==> r is Err && r->Err_0.kind == ErrorKind::InvalidSchema
            && r->Err_0.message_view() == Some(
            if version < T::VERSION {
                "cannot upgrade: no adjacent previous version"@
            } else {
                "cannot downgrade: no adjacent next version"@
            },
        ),
{
    let v = T::version();
    if version == v {
        T::load(val)
    } else if version < v {
        if T::PREV_VERSION != v - 1 || version == 0 {
            Err(Error::new(ErrorKind::InvalidSchema, "cannot upgrade: no adjacent previous version"))
        } else {
            T::from_prev(version, val)
        }
    } else {
        if T::NEXT_VERSION == 0 || v != T::NEXT_VERSION - 1 || version == u64::MAX {
            Err(Error::new(ErrorKind::InvalidSchema, "cannot downgrade: no adjacent next version"))
        } else {
            T::from_next(version, val)
        }
    }
}

/// Reads `val`, stored at `version`, as the previous schema of `T`, then
/// upgrades it; errors of either step are returned as they are.
pub fn upgrade_from<T: SchemaUpgrade>(version: u64, val: Value) -> (r: Result<T, Error>)
    ensures
        exists|lr: Result<T::PrevVersion, Error>|
            #[trigger] load::<T::PrevVersion>.ensures((version, val), lr) && match lr {
                Ok(x) => T::upgrade.ensures((x,), r),
                Err(e) => r == Err::<T, Error>(e),
            },
{
    match load::<T::PrevVersion>(version, val) {
        Ok(x) => T::upgrade(x),
        Err(e) => Err(e),
    }
}

/// Reads `val`, stored at `version`, as the next schema of `T`, then
/// downgrades it; errors of either step are returned as they are.
pub fn downgrade_from<T: SchemaDowngrade>(version: u64, val: Value) -> (r: Result<T, Error>)
    ensures
        exists|lr: Result<T::NextVersion, Error>|
            #[trigger] load::<T::NextVersion>.ensures((version, val), lr) && match lr {
                Ok(x) => T::downgrade.ensures((x,), r),
                Err(e) => r == Err::<T, Error>(e),
            },
{
    match load::<T::NextVersion>(version, val) {
        Ok(x) => T::downgrade(x),
        Err(e) => Err(e),
    }
}

/// The integer held by `val` when it lies in `min..=max`.
pub fn integer_in(val: &Value, min: i128, max: i128) -> (r: Option<i128>)
    ensures
        r == (match *val {
            Value::Integer(n) => if min <= n <= max {
                Some(n)
            } else {
                None
            },
            _ => None,
        }),
{
    match val {
        Value::Integer(n) => if min <= *n && *n <= max {
            Some(*n)
        } else {
            None
        },
        _ => None,
    }
}

fn wrong_shape() -> (r: Error)
    ensures
        r.kind == ErrorKind::InvalidFormat,
{
    Error::new(ErrorKind::InvalidFormat, "value does not have the expected shape")
}

fn no_prev() -> (r: Error)
    ensures
        r.kind == ErrorKind::InvalidSchema,
{
    Error::new(ErrorKind::InvalidSchema, "this is the first version, so it has nothing to upgrade from")
}

fn no_next() -> (r: Error)
    ensures
        r.kind == ErrorKind::InvalidSchema,
{
    Error::new(ErrorKind::InvalidSchema, "this is the last version, so it has nothing to downgrade from")
}

impl Schema for u8 {
    const VERSION: u64 = 1;

    const PREV_VERSION: u64 = 0;

    const NEXT_VERSION: u64 = 0;

    fn version() -> (r: u64) {
        1
    }

    fn load(val: Value) -> (r: Result<Self, Error>)
        ensures
            match val {
                Value::Integer(n) => if u8::MIN <= n <= u8::MAX {
                    r == Ok::<Self, Error>(n as u8)
                } else {
                    r is Err && r->Err_0.kind == ErrorKind::InvalidFormat
                },
                _ => r is Err && r->Err_0.kind == ErrorKind::InvalidFormat,
            },
    {
        match integer_in(&val, u8::MIN as i128, u8::MAX as i128) {
            Some(n) => Ok(n as u8),
            None => Err(wrong_shape()),
        }
    }

    fn save(self) -> (r: Result<Value, Error>)
        ensures
            r == Ok::<Value, Error>(Value::Integer(self as i128)),
    {
        Ok(Value::Integer(self as i128))
    }

    fn from_prev(version: u64, val: Value) -> (r: Result<Self, Error>)
        ensures
            r is Err && r->Err_0.kind == ErrorKind::InvalidSchema,
    {
        Err(no_prev())
    }

    fn from_next(version: u64, val: Value) -> (r: Result<Self, Error>)
        ensures
            r is Err && r->Err_0.kind == ErrorKind::InvalidSchema,
    {
        Err(no_next())
    }
}

impl Schema for i8 {
    const VERSION: u64 = 1;

    const PREV_VERSION: u64 = 0;

    const NEXT_VERSION: u64 = 0;

    fn version() -> (r: u64) {
        1
    }

    fn load(val: Value) -> (r: Result<Self, Error>)
        ensures
            match val {
                Value::Integer(n) => if i8::MIN <= n <= i8::MAX {
                    r == Ok::<Self, Error>(n as i8)
                } else {
                    r is Err && r->Err_0.kind == ErrorKind::InvalidFormat
                },
                _ => r is Err && r->Err_0.kind == ErrorKind::InvalidFormat,
            },
    {
        match integer_in(&val, i8::MIN as i128, i8::MAX as i128) {
            Some(n) => Ok(n as i8),
            None => Err(wrong_shape()),
        }
    }

    fn save(self) -> (r: Result<Value, Error>)
        ensures
            r == Ok::<Value, Error>(Value::Integer(self as i128)),
    {
        Ok(Value::Integer(self as i128))
    }

    fn from_prev(version: u64, val: Value) -> (r: Result<Self, Error>)
        ensures
            r is Err && r->Err_0.kind == ErrorKind::InvalidSchema,
    {
        Err(no_prev())
    }

    fn from_next(version: u64, val: Value) -> (r: Result<Self, Error>)
        ensures
            r is Err && r->Err_0.kind == ErrorKind::InvalidSchema,
    {
        Err(no_next())
    }
}

impl Schema for u16 {
    const VERSION: u64 = 1;

    const PREV_VERSION: u64 = 0;

    const NEXT_VERSION: u64 = 0;

    fn version() -> (r: u64) {
        1
    }

    fn load(val: Value) -> (r: Result<Self, Error>)
        ensures
            match val {
                Value::Integer(n) => if u16::MIN <= n <= u16::MAX {
                    r == Ok::<Self, Error>(n as u16)
                } else {
                    r is Err && r->Err_0.kind == ErrorKind::InvalidFormat
                },
                _ => r is Err && r->Err_0.kind == ErrorKind::InvalidFormat,
            },
    {
        match integer_in(&val, u16::MIN as i128, u16::MAX as i128) {
            Some(n) => Ok(n as u16),
            None => Err(wrong_shape()),
        }
    }

    fn save(self) -> (r: Result<Value, Error>)
        ensures
            r == Ok::<Value, Error>(Value::Integer(self as i128)),
    {
        Ok(Value::Integer(self as i128))
    }

    fn from_prev(version: u64, val: Value) -> (r: Result<Self, Error>)
        ensures
            r is Err && r->Err_0.kind == ErrorKind::InvalidSchema,
    {
        Err(no_prev())
    }

    fn from_next(version: u64, val: Value) -> (r: Result<Self, Error>)
        ensures
            r is Err && r->Err_0.kind == ErrorKind::InvalidSchema,
    {
        Err(no_next())
    }
}

impl Schema for i16 {
    const VERSION: u64 = 1;

    const PREV_VERSION: u64 = 0;

    const NEXT_VERSION: u64 = 0;

    fn version() -> (r: u64) {
        1
    }

    fn load(val: Value) -> (r: Result<Self, Error>)
        ensures
            match val {
                Value::Integer(n) => if i16::MIN <= n <= i16::MAX {
                    r == Ok::<Self, Error>(n as i16)
                } else {
                    r is Err && r->Err_0.kind == ErrorKind::InvalidFormat
                },
                _ => r is Err && r->Err_0.kind == ErrorKind::InvalidFormat,
            },
    {
        match integer_in(&val, i16::MIN as i128, i16::MAX as i128) {
            Some(n) => Ok(n as i16),
            None => Err(wrong_shape()),
        }
    }

    fn save(self) -> (r: Result<Value, Error>)
        ensures
            r == Ok::<Value, Error>(Value::Integer(self as i128)),
    {
        Ok(Value::Integer(self as i128))
    }

    fn from_prev(version: u64, val: Value) -> (r: Result<Self, Error>)
        ensures
            r is Err && r->Err_0.kind == ErrorKind::InvalidSchema,
    {
        Err(no_prev())
    }

    fn from_next(version: u64, val: Value) -> (r: Result<Self, Error>)
        ensures
            r is Err && r->Err_0.kind == ErrorKind::InvalidSchema,
    {
        Err(no_next())
    }
}

impl Schema for u32 {
    const VERSION: u64 = 1;

    const PREV_VERSION: u64 = 0;

    const NEXT_VERSION: u64 = 0;

    fn version() -> (r: u64) {
        1
    }

    fn load(val: Value) -> (r: Result<Self, Error>)
        ensures
            match val {
                Value::Integer(n) => if u32::MIN <= n <= u32::MAX {
                    r == Ok::<Self, Error>(n as u32)
                } else {
                    r is Err && r->Err_0.kind == ErrorKind::InvalidFormat
                },
                _ => r is Err && r->Err_0.kind == ErrorKind::InvalidFormat,
            },
    {
        match integer_in(&val, u32::MIN as i128, u32::MAX as i128) {
            Some(n) => Ok(n as u32),
            None => Err(wrong_shape()),
        }
    }

    fn save(self) -> (r: Result<Value, Error>)
        ensures
            r == Ok::<Value, Error>(Value::Integer(self as i128)),
    {
        Ok(Value::Integer(self as i128))
    }

    fn from_prev(version: u64, val: Value) -> (r: Result<Self, Error>)
        ensures
            r is Err && r->Err_0.kind == ErrorKind::InvalidSchema,
    {
        Err(no_prev())
    }

    fn from_next(version: u64, val: Value) -> (r: Result<Self, Error>)
        ensures
            r is Err && r->Err_0.kind == ErrorKind::InvalidSchema,
    {
        Err(no_next())
    }
}

impl Schema for i32 {
    const VERSION: u64 = 1;

    const PREV_VERSION: u64 = 0;

    const NEXT_VERSION: u64 = 0;

    fn version() -> (r: u64) {
        1
    }

    fn load(val: Value) -> (r: Result<Self, Error>)
        ensures
            match val {
                Value::Integer(n) => if i32::MIN <= n <= i32::MAX {
                    r == Ok::<Self, Error>(n as i32)
                } else {
                    r is Err && r->Err_0.kind == ErrorKind::InvalidFormat
                },
                _ => r is Err && r->Err_0.kind == ErrorKind::InvalidFormat,
            },
    {
        match integer_in(&val, i32::MIN as i128, i32::MAX as i128) {
            Some(n) => Ok(n as i32),
            None => Err(wrong_shape()),
        }
    }

    fn save(self) -> (r: Result<Value, Error>)
        ensures
            r == Ok::<Value, Error>(Value::Integer(self as i128)),
    {
        Ok(Value::Integer(self as i128))
    }

    fn from_prev(version: u64, val: Value) -> (r: Result<Self, Error>)
        ensures
            r is Err && r->Err_0.kind == ErrorKind::InvalidSchema,
    {
        Err(no_prev())
    }

    fn from_next(version: u64, val: Value) -> (r: Result<Self, Error>)
        ensures
            r is Err && r->Err_0.kind == ErrorKind::InvalidSchema,
    {
        Err(no_next())
    }
}

impl Schema for u64 {
    const VERSION: u64 = 1;

    const PREV_VERSION: u64 = 0;

    const NEXT_VERSION: u64 = 0;

    fn version() -> (r: u64) {
        1
    }

    fn load(val: Value) -> (r: Result<Self, Error>)
        ensures
            match val {
                Value::Integer(n) => if u64::MIN <= n <= u64::MAX {
                    r == Ok::<Self, Error>(n as u64)
                } else {
                    r is Err && r->Err_0.kind == ErrorKind::InvalidFormat
                },
                _ => r is Err && r->Err_0.kind == ErrorKind::InvalidFormat,
            },
    {
        match integer_in(&val, u64::MIN as i128, u64::MAX as i128) {
            Some(n) => Ok(n as u64),
            None => Err(wrong_shape()),
        }
    }

    fn save(self) -> (r: Result<Value, Error>)
        ensures
            r == Ok::<Value, Error>(Value::Integer(self as i128)),
    {
        Ok(Value::Integer(self as i128))
    }

    fn from_prev(version: u64, val: Value) -> (r: Result<Self, Error>)
        ensures
            r is Err && r->Err_0.kind == ErrorKind::InvalidSchema,
    {
        Err(no_prev())
    }

    fn from_next(version: u64, val: Value) -> (r: Result<Self, Error>)
        ensures
            r is Err && r->Err_0.kind == ErrorKind::InvalidSchema,
    {
        Err(no_next())
    }
}

impl Schema for i64 {
    const VERSION: u64 = 1;

    const PREV_VERSION: u64 = 0;

    const NEXT_VERSION: u64 = 0;

    fn version() -> (r: u64) {
        1
    }

    fn load(val: Value) -> (r: Result<Self, Error>)
        ensures
            match val {
                Value::Integer(n) => if i64::MIN <= n <= i64::MAX {
                    r == Ok::<Self, Error>(n as i64)
                } else {
                    r is Err && r->Err_0.kind == ErrorKind::InvalidFormat
                },
                _ => r is Err && r->Err_0.kind == ErrorKind::InvalidFormat,
            },
    {
        match integer_in(&val, i64::MIN as i128, i64::MAX as i128) {
            Some(n) => Ok(n as i64),
            None => Err(wrong_shape()),
        }
    }

    fn save(self) -> (r: Result<Value, Error>)
        ensures
            r == Ok::<Value, Error>(Value::Integer(self as i128)),
    {
        Ok(Value::Integer(self as i128))
    }

    fn from_prev(version: u64, val: Value) -> (r: Result<Self, Error>)
        ensures
            r is Err && r->Err_0.kind == ErrorKind::InvalidSchema,
    {
        Err(no_prev())
    }

    fn from_next(version: u64, val: Value) -> (r: Result<Self, Error>)
        ensures
            r is Err && r->Err_0.kind == ErrorKind::InvalidSchema,
    {
        Err(no_next())
    }
}

impl Schema for bool {
    const VERSION: u64 = 1;

    const PREV_VERSION: u64 = 0;

    const NEXT_VERSION: u64 = 0;

    fn version() -> (r: u64) {
        1
    }

    fn load(val: Value) -> (r: Result<Self, Error>)
        ensures
            match val {
                Value::Boolean(b) => r == Ok::<Self, Error>(b),
                _ => r is Err && r->Err_0.kind == ErrorKind::InvalidFormat,
            },
    {
        match val {
            Value::Boolean(b) => Ok(b),
            _ => Err(wrong_shape()),
        }
    }

    fn save(self) -> (r: Result<Value, Error>)
        ensures
            r == Ok::<Value, Error>(Value::Boolean(self)),
    {
        Ok(Value::Boolean(self))
    }

    fn from_prev(version: u64, val: Value) -> (r: Result<Self, Error>)
        ensures
            r is Err && r->Err_0.kind == ErrorKind::InvalidSchema,
    {
        Err(no_prev())
    }

    fn from_next(version: u64, val: Value) -> (r: Result<Self, Error>)
        ensures
            r is Err && r->Err_0.kind == ErrorKind::InvalidSchema,
    {
        Err(no_next())
    }
}

impl Schema for String {
    const VERSION: u64 = 1;

    const PREV_VERSION: u64 = 0;

    const NEXT_VERSION: u64 = 0;

    fn version() -> (r: u64) {
        1
    }

    fn load(val: Value) -> (r: Result<Self, Error>)
        ensures
            match val {
                Value::String(s) => r == Ok::<Self, Error>(s),
                _ => r is Err && r->Err_0.kind == ErrorKind::InvalidFormat,
            },
    {
        match val {
            Value::String(s) => Ok(s),
            _ => Err(wrong_shape()),
        }
    }

    fn save(self) -> (r: Result<Value, Error>)
        ensures
            r == Ok::<Value, Error>(Value::String(self)),
    {
        Ok(Value::String(self))
    }

    fn from_prev(version: u64, val: Value) -> (r: Result<Self, Error>)
        ensures
            r is Err && r->Err_0.kind == ErrorKind::InvalidSchema,
    {
        Err(no_prev())
    }

    fn from_next(version: u64, val: Value) -> (r: Result<Self, Error>)
        ensures
            r is Err && r->Err_0.kind == ErrorKind::InvalidSchema,
    {
        Err(no_next())
    }
}

impl Schema for Vec<u8> {
    const VERSION: u64 = 1;

    const PREV_VERSION: u64 = 0;

    const NEXT_VERSION: u64 = 0;

    fn version() -> (r: u64) {
        1
    }

    fn load(val: Value) -> (r: Result<Self, Error>)
        ensures
            match val {
                Value::Binary(b) => r == Ok::<Self, Error>(b),
                _ => r is Err && r->Err_0.kind == ErrorKind::InvalidFormat,
            },
    {
        match val {
            Value::Binary(b) => Ok(b),
            _ => Err(wrong_shape()),
        }
    }

    fn save(self) -> (r: Result<Value, Error>)
        ensures
            r == Ok::<Value, Error>(Value::Binary(self)),
    {
        Ok(Value::Binary(self))
    }

    fn from_prev(version: u64, val: Value) -> (r: Result<Self, Error>)
        ensures
            r is Err && r->Err_0.kind == ErrorKind::InvalidSchema,
    {
        Err(no_prev())
    }

    fn from_next(version: u64, val: Value) -> (r: Result<Self, Error>)
        ensures
            r is Err && r->Err_0.kind == ErrorKind::InvalidSchema,
    {
        Err(no_next())
    }
}

impl Schema for () {
    const VERSION: u64 = 1;

    const PREV_VERSION: u64 = 0;

    const NEXT_VERSION: u64 = 0;

    fn version() -> (r: u64) {
        1
    }

    fn load(val: Value) -> (r: Result<Self, Error>)
        ensures
            match val {
                Value::Nil => r == Ok::<Self, Error>(()),
                _ => r is Err && r->Err_0.kind == ErrorKind::InvalidFormat,
            },
    {
        match val {
            Value::Nil => Ok(()),
            _ => Err(wrong_shape()),
        }
    }

    fn save(self) -> (r: Result<Value, Error>)
        ensures
            r == Ok::<Value, Error>(Value::Nil),
    {
        Ok(Value::Nil)
    }

    fn from_prev(version: u64, val: Value) -> (r: Result<Self, Error>)
        ensures
            r is Err && r->Err_0.kind == ErrorKind::InvalidSchema,
    {
        Err(no_prev())
    }

    fn from_next(version: u64, val: Value) -> (r: Result<Self, Error>)
        ensures
            r is Err && r->Err_0.kind == ErrorKind::InvalidSchema,
    {
        Err(no_next())
    }
}

} // verus!
