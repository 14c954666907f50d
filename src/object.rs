use std::rc::Rc;
use vstd::prelude::*;

use crate::bytes::PyBytes;

verus! {

/// A value of the host runtime, as far as the bytes type needs to tell
/// values apart.
pub enum PyObject {
    /// The absent value.
    NoneObj,
    /// An integer.
    Int(i64),
    /// A text value.
    Str(String),
    /// A shared bytes object.
    Bytes(Rc<PyBytes>),
    /// A list of values, iterable in order.
    List(Vec<PyObject>),
}

/// The outcome of a comparison operation: a truth value, or the sentinel
/// that tells the host the operands are not comparable by this type.
#[derive(PartialEq, Eq, Structural, Clone, Copy, Debug)]
pub enum CompareResult {
    Bool(bool),
    NotImplemented,
}

} // verus!

verus! {

/// A native operation that a class descriptor can bind to a name.
#[derive(PartialEq, Eq, Structural, Clone, Copy, Debug)]
pub enum NativeMethod {
    BytesNew,
    BytesRepr,
    BytesLen,
    BytesEq,
    BytesGe,
    BytesLe,
    BytesGt,
    BytesLt,
    BytesHash,
    BytesIter,
    BytesIteratorNext,
    BytesIteratorIter,
}

/// One name bound to one operation in a class's table.
pub struct MethodEntry {
    pub name: String,
    pub method: NativeMethod,
}

/// A class descriptor: its name and the table of its named operations,
/// later entries overriding earlier ones of the same name.
pub struct PyClass {
    pub name: String,
    pub methods: Vec<MethodEntry>,
}

/// The class descriptors of the runtime that the bytes types use.
pub struct PyContext {
    pub bytes_type: PyClass,
    pub bytesiterator_type: PyClass,
}

/// A method table seen as (name, operation) pairs, in order.
pub open spec fn table_view(methods: Seq<MethodEntry>) -> Seq<(Seq<char>, NativeMethod)> {
    methods.map_values(|e: MethodEntry| (e.name@, e.method))
}

/// The operation that `name` is bound to in `table`: the last binding of
/// that name wins.
pub open spec fn lookup_spec(table: Seq<(Seq<char>, NativeMethod)>, name: Seq<char>) -> Option<
    NativeMethod,
>
    decreases table.len(),
{
    if table.len() == 0 {
        None
    } else if table.last().0 == name {
        Some(table.last().1)
    } else {
        lookup_spec(table.drop_last(), name)
    }
}

/// Binding names after a table leaves every name bound in the added part
/// to what the added part says.
pub proof fn lemma_lookup_after_extend(
    base: Seq<(Seq<char>, NativeMethod)>,
    ext: Seq<(Seq<char>, NativeMethod)>,
    name: Seq<char>,
)
    requires
        lookup_spec(ext, name) is Some,
    ensures
        lookup_spec(base + ext, name) == lookup_spec(ext, name),
    decreases ext.len(),
{
    assert((base + ext).drop_last() =~= base + ext.drop_last());
    if ext.last().0 != name {
        lemma_lookup_after_extend(base, ext.drop_last(), name);
    }
}

impl PyClass {
    /// A class with the given name and no operations yet.
    pub fn new(name: &str) -> (r: PyClass)
        ensures
            r.name@ == name@,
            r.methods@.len() == 0,
    {
        PyClass { name: name.to_owned(), methods: Vec::new() }
    }

    /// Binds `name` to `method`, overriding an earlier binding.
    pub fn add_method(&mut self, name: &str, method: NativeMethod)
        ensures
            final(self).name == old(self).name,
            table_view(final(self).methods@) == table_view(old(self).methods@).push(
                (name@, method),
            ),
    {
        self.methods.push(MethodEntry { name: name.to_owned(), method });
        assert(table_view(self.methods@) =~= table_view(old(self).methods@).push((name@, method)));
    }

    /// The operation bound to `name`, if any.
    pub fn lookup(&self, name: &str) -> (r: Option<NativeMethod>)
        ensures
            r == lookup_spec(table_view(self.methods@), name@),
    {
        let key = name.to_owned();
        let mut i: usize = self.methods.len();
        assert(self.methods@.take(i as int) =~= self.methods@);
        while i > 0
            invariant
                i <= self.methods@.len(),
                key@ == name@,
                lookup_spec(table_view(self.methods@), name@) == lookup_spec(
                    table_view(self.methods@.take(i as int)),
                    name@,
                ),
            decreases i,
        {
            assert(table_view(self.methods@.take(i as int)).drop_last() =~= table_view(
                self.methods@.take(i - 1),
            ));
            if self.methods[i - 1].name == key {
                return Some(self.methods[i - 1].method);
            }
            i = i - 1;
        }
        None
    }
}

impl PyContext {
    /// A context whose bytes and bytes-iterator classes have no
    /// operations yet.
    pub fn new() -> (r: PyContext)
        ensures
            r.bytes_type.name@ == "bytes"@,
            r.bytesiterator_type.name@ == "bytes_iterator"@,
            r.bytes_type.methods@.len() == 0,
            r.bytesiterator_type.methods@.len() == 0,
    {
        PyContext {
            bytes_type: PyClass::new("bytes"),
            bytesiterator_type: PyClass::new("bytes_iterator"),
        }
    }
}

} // verus!
