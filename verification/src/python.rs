//! The cache of a Python extension module: a value is a Python object, a
//! failure is a Python exception, and a computation is the call of a Python
//! function.
use crate::cache::PyCache;
use crate::error::CacheError;
use crate::model::EntryState;
use crate::value::Value;
use pyo3::types::{PyDict, PyTuple};
use pyo3::{Bound, Py, PyAny, PyErr, Python};
use vstd::prelude::*;

verus! {

/// `pyo3::Py`: an owned pointer to a Python object. The cache carries it
/// and never looks into it.
#[verifier::external_type_specification]
#[verifier::external_body]
#[verifier::reject_recursive_types(T)]
pub struct ExPy<T>(Py<T>);

/// `pyo3::PyAny`: a Python object of whatever type.
#[verifier::external_type_specification]
#[verifier::external_body]
pub struct ExPyAny(PyAny);

/// `pyo3::PyErr`: a Python exception.
#[verifier::external_type_specification]
#[verifier::external_body]
pub struct ExPyErr(PyErr);

/// `pyo3::Python`: the proof that the caller holds the interpreter lock.
#[verifier::external_type_specification]
#[verifier::external_body]
pub struct ExPython<'py>(Python<'py>);

/// Python objects carry their own types, so the cache sees one type only:
/// every Python object is stored and asked for under this tag.
pub const ANY_OBJECT: u64 = 0;

/// Calls `py_func(*args, **kwargs)`: `Py::downcast_bound` takes `args` as a
/// tuple and `kwargs` as a dict, and `Py::call` calls the object. Arguments
/// of another shape and an exception raised by the call come back as the
/// error. Nothing is claimed of the result: it is whatever the Python
/// function does, and the call returns when the Python function returns.
#[verifier::external_body]
fn invoke(py: Python<'_>, py_func: &Py<PyAny>, args: &Py<PyAny>, kwargs: &Py<PyAny>) -> (r: Result<
    Py<PyAny>,
    PyErr,
>) {
    let args_tuple: &Bound<'_, PyTuple> = args.downcast_bound(py)?;
    let kwargs_dict: &Bound<'_, PyDict> = kwargs.downcast_bound(py)?;
    py_func.call(py, args_tuple, Some(kwargs_dict))
}

/// `Py::clone_ref`: another pointer to the same Python object, whose
/// reference count goes up by one. The contract claims that the result
/// stands for the object that `object` stands for.
#[verifier::external_body]
fn clone_ref(py: Python<'_>, object: &Py<PyAny>) -> (r: Py<PyAny>)
    ensures
        r == *object,
{
    object.clone_ref(py)
}

/// What a caller from Python gets for a value read from the cache.
pub open spec fn object_read(value: Value<Py<PyAny>>) -> Result<Py<PyAny>, CacheError<PyErr>> {
    if value.type_id == ANY_OBJECT {
        Ok(*value.payload)
    } else {
        Err(CacheError::TypeMismatch)
    }
}

impl PyCache<Py<PyAny>, PyErr> {
    /// One whole call from Python by a caller that has the cache to itself:
    /// the object cached under `key`, or else the result of
    /// `py_func(*args, **kwargs)`, which is then cached under `key`.
    ///
    /// A key that is `Ready` is answered from the cache and `py_func` is not
    /// called. For a key without a slot `py_func` is called once: the object
    /// that it returns is stored and returned; an exception that it raises,
    /// and arguments that are no tuple and dict, are returned as the failure
    /// of the computation, and the key is left without a slot. A key that is
    /// pending stays so for as long as this caller has the cache: the call
    /// ends as a wait that timed out.
    pub fn py_call(
        &mut self,
        py: Python<'_>,
        py_func: Py<PyAny>,
        args: Py<PyAny>,
        kwargs: Py<PyAny>,
        key: String,
    ) -> (r: Result<Py<PyAny>, CacheError<PyErr>>)
        requires
            old(self).wf(),
        ensures
            final(self).wf(),
            final(self).timeout_ms() == old(self).timeout_ms(),
            match old(self)@.lookup(key@) {
                Some(EntryState::Ready(value)) => final(self)@ == old(self)@ && r == object_read(
                    value,
                ),
                Some(EntryState::Pending(handle)) => final(self)@ == old(self)@ && r == Err::<
                    Py<PyAny>,
                    CacheError<PyErr>,
                >(CacheError::WaitTimeout),
                None => final(self)@.handles == old(self)@.handles && (match r {
                    Ok(object) => final(self)@.slots == old(self)@.slots.insert(
                        key@,
                        EntryState::Ready(Value::tagged(ANY_OBJECT, object)),
                    ),
                    Err(CacheError::ComputationFailed(cause)) => final(self)@.slots
                        == old(self)@.slots,
                    Err(_) => false,
                }),
            },
    {
        let computation = || -> (r: Result<Py<PyAny>, PyErr>) { invoke(py, &py_func, &args, &kwargs) };
        match self.get_or_compute(key, ANY_OBJECT, computation) {
            Ok(value) => Ok(clone_ref(py, value.payload())),
            Err(error) => Err(error),
        }
    }
}

} // verus!
