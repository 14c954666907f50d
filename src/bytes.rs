use std::rc::Rc;
use vstd::prelude::*;

use vstd::string::*;

use crate::byteinner::{
    bytes_hash, construct_spec, item_byte, items_to_bytes, escape_bytes, lex_lt, ConstructError, PyByteInner,
};
use crate::object::{
    lookup_spec, table_view, CompareResult, NativeMethod, PyClass, PyContext, PyObject,
};

verus! {

/// The printed form of a bytes object: `b'`, the escaped bytes, `'`.
pub open spec fn repr_spec(s: Seq<u8>) -> Seq<char> {
    seq!['b', '\''] + escape_bytes(s) + seq!['\'']
}

/// An immutable bytes object.
pub struct PyBytes {
    inner: PyByteInner,
}

impl View for PyBytes {
    type V = Seq<u8>;

    closed spec fn view(&self) -> Seq<u8> {
        self.inner@
    }
}

impl PyBytes {
    /// A bytes object holding exactly `elements`.
    pub fn new(elements: Vec<u8>) -> (r: PyBytes)
        ensures
            r@ == elements@,
    {
        PyBytes { inner: PyByteInner { elements } }
    }

    /// Builds a bytes object from a source and an optional encoding
    /// name: see `construct_spec` for the accepted shapes and the errors.
    pub fn bytes_new(val_option: Option<PyObject>, enc_option: Option<PyObject>) -> (r: Result<
        PyBytes,
        ConstructError,
    >)
        ensures
            match construct_spec(val_option, enc_option) {
                Ok(s) => r matches Ok(b) && b@ == s,
                Err(e) => r matches Err(e2) && e2 == e,
            },
    {
        match PyByteInner::new(val_option, enc_option) {
            Ok(inner) => Ok(PyBytes { inner }),
            Err(e) => Err(e),
        }
    }

    /// The class descriptor of bytes objects.
    pub fn class(ctx: &PyContext) -> (r: &PyClass)
        ensures
            r == &ctx.bytes_type,
    {
        &ctx.bytes_type
    }

    /// The printed form, such as `b'hello'`.
    pub fn repr(&self) -> (r: String)
        ensures
            r@ == repr_spec(self@),
    {
        let body = self.inner.repr();
        let mut out = String::from_str("b'");
        out.append(body.as_str());
        out.append("'");
        proof {
            reveal_strlit("b'");
            reveal_strlit("'");
        }
        assert(out@ =~= repr_spec(self@));
        out
    }

    /// Number of bytes held.
    pub fn len(&self) -> (r: usize)
        ensures
            r == self@.len(),
    {
        self.inner.len()
    }

    /// Equality against any value: a truth value against a bytes object,
    /// the sentinel against anything else.
    pub fn eq(&self, other: &PyObject) -> (r: CompareResult)
        ensures
            match other {
                PyObject::Bytes(b) => r == CompareResult::Bool(self@ == b@),
                _ => r == CompareResult::NotImplemented,
            },
    {
        match other {
            PyObject::Bytes(b) => CompareResult::Bool(self.inner.eq(&b.inner)),
            _ => CompareResult::NotImplemented,
        }
    }

    /// Greater than or equal against any value.
    pub fn ge(&self, other: &PyObject) -> (r: CompareResult)
        ensures
            match other {
                PyObject::Bytes(b) => r == CompareResult::Bool(lex_lt(b@, self@) || self@ == b@),
                _ => r == CompareResult::NotImplemented,
            },
    {
        match other {
            PyObject::Bytes(b) => CompareResult::Bool(self.inner.ge(&b.inner)),
            _ => CompareResult::NotImplemented,
        }
    }

    /// Less than or equal against any value.
    pub fn le(&self, other: &PyObject) -> (r: CompareResult)
        ensures
            match other {
                PyObject::Bytes(b) => r == CompareResult::Bool(lex_lt(self@, b@) || self@ == b@),
                _ => r == CompareResult::NotImplemented,
            },
    {
        match other {
            PyObject::Bytes(b) => CompareResult::Bool(self.inner.le(&b.inner)),
            _ => CompareResult::NotImplemented,
        }
    }

    /// Strictly greater against any value.
    pub fn gt(&self, other: &PyObject) -> (r: CompareResult)
        ensures
            match other {
                PyObject::Bytes(b) => r == CompareResult::Bool(lex_lt(b@, self@)),
                _ => r == CompareResult::NotImplemented,
            },
    {
        match other {
            PyObject::Bytes(b) => CompareResult::Bool(self.inner.gt(&b.inner)),
            _ => CompareResult::NotImplemented,
        }
    }

    /// Strictly less against any value.
    pub fn lt(&self, other: &PyObject) -> (r: CompareResult)
        ensures
            match other {
                PyObject::Bytes(b) => r == CompareResult::Bool(lex_lt(self@, b@)),
                _ => r == CompareResult::NotImplemented,
            },
    {
        match other {
            PyObject::Bytes(b) => CompareResult::Bool(self.inner.lt(&b.inner)),
            _ => CompareResult::NotImplemented,
        }
    }

    /// The hash of the held bytes.
    pub fn hash(&self) -> (r: usize)
        ensures
            r == bytes_hash(self@),
    {
        self.inner.hash()
    }

    /// A new iterator over the bytes of `zelf`, at the start.
    pub fn iter(zelf: Rc<PyBytes>) -> (r: PyBytesIterator)
        ensures
            r.source() == zelf@,
            r.position() == 0,
    {
        PyBytesIterator { position: 0, bytes: zelf }
    }

    /// The held bytes.
    pub fn as_slice(&self) -> (r: &[u8])
        ensures
            r@ == self@,
    {
        self.inner.elements.as_slice()
    }
}

/// The names and operations that `init` binds on the bytes class.
pub open spec fn bytes_method_table() -> Seq<(Seq<char>, NativeMethod)> {
    seq![
        ("__new__"@, NativeMethod::BytesNew),
        ("__repr__"@, NativeMethod::BytesRepr),
        ("__len__"@, NativeMethod::BytesLen),
        ("__eq__"@, NativeMethod::BytesEq),
        ("__ge__"@, NativeMethod::BytesGe),
        ("__le__"@, NativeMethod::BytesLe),
        ("__gt__"@, NativeMethod::BytesGt),
        ("__lt__"@, NativeMethod::BytesLt),
        ("__hash__"@, NativeMethod::BytesHash),
        ("__iter__"@, NativeMethod::BytesIter),
    ]
}

/// The names and operations that `init` binds on the bytes-iterator class.
pub open spec fn bytesiterator_method_table() -> Seq<(Seq<char>, NativeMethod)> {
    seq![
        ("__next__"@, NativeMethod::BytesIteratorNext),
        ("__iter__"@, NativeMethod::BytesIteratorIter),
    ]
}

/// Registers the named operations of bytes objects and of their
/// iterators on the context's class descriptors.
pub fn init(context: &mut PyContext)
    ensures
        final(context).bytes_type.name == old(context).bytes_type.name,
        final(context).bytesiterator_type.name == old(context).bytesiterator_type.name,
        table_view(final(context).bytes_type.methods@) == table_view(
            old(context).bytes_type.methods@,
        ) + bytes_method_table(),
        table_view(final(context).bytesiterator_type.methods@) == table_view(
            old(context).bytesiterator_type.methods@,
        ) + bytesiterator_method_table(),
{
    let bytes_type = &mut context.bytes_type;
    bytes_type.add_method("__new__", NativeMethod::BytesNew);
    bytes_type.add_method("__repr__", NativeMethod::BytesRepr);
    bytes_type.add_method("__len__", NativeMethod::BytesLen);
    bytes_type.add_method("__eq__", NativeMethod::BytesEq);
    bytes_type.add_method("__ge__", NativeMethod::BytesGe);
    bytes_type.add_method("__le__", NativeMethod::BytesLe);
    bytes_type.add_method("__gt__", NativeMethod::BytesGt);
    bytes_type.add_method("__lt__", NativeMethod::BytesLt);
    bytes_type.add_method("__hash__", NativeMethod::BytesHash);
    bytes_type.add_method("__iter__", NativeMethod::BytesIter);
    let bytesiterator_type = &mut context.bytesiterator_type;
    bytesiterator_type.add_method("__next__", NativeMethod::BytesIteratorNext);
    bytesiterator_type.add_method("__iter__", NativeMethod::BytesIteratorIter);
    assert(table_view(context.bytes_type.methods@) =~= table_view(old(context).bytes_type.methods@)
        + bytes_method_table());
    assert(table_view(context.bytesiterator_type.methods@) =~= table_view(
        old(context).bytesiterator_type.methods@,
    ) + bytesiterator_method_table());
}

/// The bytes held by `obj`, which must be a bytes object.
pub fn get_value(obj: &PyObject) -> (r: &Vec<u8>)
    requires
        obj is Bytes,
    ensures
        r@ == (obj->Bytes_0)@,
{
    match obj {
        PyObject::Bytes(b) => &b.inner.elements,
        _ => vstd::pervasive::unreached(),
    }
}

/// The result of one step of an iterator at `pos` over `source`, and the
/// position after it: the byte at `pos` and one step further while bytes
/// remain, else the exhaustion signal and no move.
pub open spec fn next_spec(source: Seq<u8>, pos: nat) -> (Option<u8>, nat) {
    if pos < source.len() {
        (Some(source[pos as int]), pos + 1)
    } else {
        (None, pos)
    }
}

/// The results of `k` successive steps from `pos` over `source`.
pub open spec fn run_results(source: Seq<u8>, pos: nat, k: nat) -> Seq<Option<u8>>
    decreases k,
{
    if k == 0 {
        Seq::empty()
    } else {
        seq![next_spec(source, pos).0] + run_results(source, next_spec(source, pos).1, (k - 1) as nat)
    }
}

/// Stepping an iterator `k` times from `pos` yields the bytes from `pos`
/// on, in order, and after the last byte only exhaustion signals.
pub proof fn lemma_run_results(source: Seq<u8>, pos: nat, k: nat)
    requires
        pos <= source.len(),
    ensures
        run_results(source, pos, k).len() == k,
        forall|j: int|
            0 <= j < k ==> #[trigger] run_results(source, pos, k)[j] == (if pos + j < source.len() {
                Some(source[pos + j])
            } else {
                None::<u8>
            }),
    decreases k,
{
    if k > 0 {
        let next = next_spec(source, pos).1;
        lemma_run_results(source, next, (k - 1) as nat);
        let all = run_results(source, pos, k);
        let rest = run_results(source, next, (k - 1) as nat);
        assert forall|j: int| 0 < j < k implies #[trigger] all[j] == (if pos + j < source.len() {
            Some(source[pos + j])
        } else {
            None::<u8>
        }) by {
            assert(all[j] == rest[j - 1]);
        }
    }
}

/// A bytes object built from a list of integers that are all bytes holds
/// exactly those bytes; iterating it from the start yields each of them
/// in order, and every step after the last signals exhaustion.
pub proof fn lemma_construct_from_ints_then_iterate(values: Seq<u8>, list: Vec<PyObject>, extra: nat)
    requires
        list@.len() == values.len(),
        forall|i: int| 0 <= i < values.len() ==> list@[i] == PyObject::Int(values[i] as i64),
    ensures
        construct_spec(Some(PyObject::List(list)), None) == Ok::<Seq<u8>, ConstructError>(values),
        run_results(values, 0, values.len() + extra) == values.map_values(|b: u8| Some(b)) + Seq::new(
            extra,
            |i: int| None::<u8>,
        ),
{
    lemma_items_to_bytes_ints(values, list@);
    lemma_run_results(values, 0, values.len() + extra);
    assert(run_results(values, 0, values.len() + extra) =~= values.map_values(|b: u8| Some(b))
        + Seq::new(extra, |i: int| None::<u8>));
}

proof fn lemma_items_to_bytes_ints(values: Seq<u8>, items: Seq<PyObject>)
    requires
        items.len() == values.len(),
        forall|i: int| 0 <= i < values.len() ==> items[i] == PyObject::Int(values[i] as i64),
    ensures
        items_to_bytes(items) == Ok::<Seq<u8>, ConstructError>(values),
    decreases items.len(),
{
    if items.len() > 0 {
        lemma_items_to_bytes_ints(values.drop_first(), items.drop_first());
        assert(item_byte(items[0]) == Ok::<u8, ConstructError>(values[0]));
        assert(seq![values[0]] + values.drop_first() =~= values);
    } else {
        assert(values =~= Seq::<u8>::empty());
    }
}

/// Bytes objects with the same bytes have the same hash.
pub proof fn lemma_hash_consistent_with_eq(a: PyBytes, b: PyBytes)
    requires
        a@ == b@,
    ensures
        bytes_hash(a@) == bytes_hash(b@),
{
}

/// A cursor over a shared bytes object.
pub struct PyBytesIterator {
    position: usize,
    bytes: Rc<PyBytes>,
}

impl PyBytesIterator {
    /// The index of the next byte to hand out.
    pub closed spec fn position(&self) -> nat {
        self.position as nat
    }

    /// The bytes being walked.
    pub closed spec fn source(&self) -> Seq<u8> {
        self.bytes@
    }

    #[verifier::type_invariant]
    closed spec fn inv(&self) -> bool {
        self.position <= self.bytes@.len()
    }

    /// The class descriptor of bytes iterators.
    pub fn class(ctx: &PyContext) -> (r: &PyClass)
        ensures
            r == &ctx.bytesiterator_type,
    {
        &ctx.bytesiterator_type
    }

    /// Hands out the next byte and moves on, or signals exhaustion with
    /// `None` and stays where it is.
    pub fn next(&mut self) -> (r: Option<u8>)
        ensures
            (r, final(self).position()) == next_spec(old(self).source(), old(self).position()),
            final(self).source() == old(self).source(),
            final(self).position() <= final(self).source().len(),
    {
        proof {
            use_type_invariant(&*self);
        }
        if self.position < self.bytes.inner.len() {
            let ret = self.bytes.inner.elements[self.position];
            self.position = self.position + 1;
            Some(ret)
        } else {
            None
        }
    }

    /// The iterator itself, unchanged.
    pub fn iter(self) -> (r: Self)
        ensures
            r == self,
    {
        self
    }
}

} // verus!
