use std::rc::Rc;

use pybytes::byteinner::ConstructError;
use pybytes::bytes::{get_value, init, PyBytes};
use pybytes::object::{CompareResult, NativeMethod, PyContext, PyObject};

fn ints(values: &[i64]) -> PyObject {
    PyObject::List(values.iter().map(|v| PyObject::Int(*v)).collect())
}

fn from_ints(values: &[i64]) -> PyBytes {
    PyBytes::bytes_new(Some(ints(values)), None).unwrap()
}

fn text(s: &str) -> PyObject {
    PyObject::Str(s.to_string())
}

fn shared(values: &[i64]) -> PyObject {
    PyObject::Bytes(Rc::new(from_ints(values)))
}

#[test]
fn construct_from_list_keeps_length_and_order() {
    let values: Vec<i64> = vec![0, 1, 127, 128, 255, 7];
    let b = from_ints(&values);
    assert_eq!(b.len(), 6);
    assert_eq!(b.as_slice(), &[0u8, 1, 127, 128, 255, 7]);
    let mut it = PyBytes::iter(Rc::new(b));
    for v in &values {
        assert_eq!(it.next(), Some(*v as u8));
    }
    assert_eq!(it.next(), None);
}

#[test]
fn hash_equal_for_equal_values() {
    let a = from_ints(&[1, 2, 3]);
    let b = PyBytes::new(vec![1, 2, 3]);
    assert_eq!(a.hash(), b.hash());
    assert_eq!(a.hash(), a.hash());
}

#[test]
fn hash_exact_values() {
    assert_eq!(PyBytes::new(vec![]).hash(), 0);
    assert_eq!(PyBytes::new(vec![1]).hash(), 128000384);
    assert_ne!(PyBytes::new(vec![1, 2]).hash(), PyBytes::new(vec![2, 1]).hash());
}

#[test]
fn comparisons_follow_lexicographic_order() {
    let a = from_ints(&[1, 2]);
    assert_eq!(a.lt(&shared(&[1, 3])), CompareResult::Bool(true));
    assert_eq!(a.gt(&shared(&[1, 3])), CompareResult::Bool(false));
    assert_eq!(a.eq(&shared(&[1, 2])), CompareResult::Bool(true));
    assert_eq!(a.eq(&shared(&[1, 2, 0])), CompareResult::Bool(false));
    assert_eq!(a.lt(&shared(&[1, 2, 0])), CompareResult::Bool(true));
    assert_eq!(a.gt(&shared(&[1])), CompareResult::Bool(true));
    assert_eq!(a.lt(&shared(&[])), CompareResult::Bool(false));
    assert_eq!(a.gt(&shared(&[0, 255])), CompareResult::Bool(true));
    assert_eq!(a.lt(&shared(&[200])), CompareResult::Bool(true));
}

#[test]
fn comparisons_or_equal() {
    let a = from_ints(&[5, 6]);
    assert_eq!(a.ge(&shared(&[5, 6])), CompareResult::Bool(true));
    assert_eq!(a.le(&shared(&[5, 6])), CompareResult::Bool(true));
    assert_eq!(a.ge(&shared(&[5, 7])), CompareResult::Bool(false));
    assert_eq!(a.le(&shared(&[5, 7])), CompareResult::Bool(true));
    assert_eq!(a.ge(&shared(&[5])), CompareResult::Bool(true));
    assert_eq!(a.le(&shared(&[5])), CompareResult::Bool(false));
}

#[test]
fn exactly_one_of_equal_less_greater() {
    let samples: Vec<Vec<i64>> = vec![vec![], vec![0], vec![1, 2], vec![1, 3], vec![1, 2, 0]];
    for x in &samples {
        for y in &samples {
            let a = from_ints(x);
            let other = shared(y);
            let count = [a.eq(&other), a.lt(&other), a.gt(&other)]
                .iter()
                .filter(|r| **r == CompareResult::Bool(true))
                .count();
            assert_eq!(count, 1);
        }
    }
}

#[test]
fn comparing_with_other_values_gives_sentinel() {
    let a = from_ints(&[1, 2]);
    let others = vec![PyObject::NoneObj, PyObject::Int(3), text("ab"), ints(&[1, 2])];
    for o in &others {
        assert_eq!(a.eq(o), CompareResult::NotImplemented);
        assert_eq!(a.ge(o), CompareResult::NotImplemented);
        assert_eq!(a.le(o), CompareResult::NotImplemented);
        assert_eq!(a.gt(o), CompareResult::NotImplemented);
        assert_eq!(a.lt(o), CompareResult::NotImplemented);
    }
}

#[test]
fn construct_from_count_gives_zero_bytes() {
    let b = PyBytes::bytes_new(Some(PyObject::Int(3)), None).unwrap();
    assert_eq!(b.len(), 3);
    assert_eq!(b.as_slice(), &[0u8, 0, 0]);
}

#[test]
fn zero_count_and_no_source_are_empty() {
    let zero = PyBytes::bytes_new(Some(PyObject::Int(0)), None).unwrap();
    let none = PyBytes::bytes_new(None, None).unwrap();
    assert_eq!(zero.len(), 0);
    assert_eq!(none.len(), 0);
    assert_eq!(zero.eq(&PyObject::Bytes(Rc::new(none))), CompareResult::Bool(true));
}

#[test]
fn construct_rejects_out_of_range_elements() {
    let high = PyBytes::bytes_new(Some(ints(&[256])), None);
    assert!(matches!(high, Err(ConstructError::ByteOutOfRange)));
    let low = PyBytes::bytes_new(Some(ints(&[-1])), None);
    assert!(matches!(low, Err(ConstructError::ByteOutOfRange)));
}

#[test]
fn construct_rejects_text_without_encoding() {
    let r = PyBytes::bytes_new(Some(text("abc")), None);
    assert!(matches!(r, Err(ConstructError::StringWithoutEncoding)));
}

#[test]
fn construct_first_bad_element_decides() {
    let items = PyObject::List(vec![PyObject::Int(1), text("a"), PyObject::Int(300)]);
    let r = PyBytes::bytes_new(Some(items), None);
    assert!(matches!(r, Err(ConstructError::NotAnInteger)));
    let items = PyObject::List(vec![PyObject::Int(300), text("a")]);
    let r = PyBytes::bytes_new(Some(items), None);
    assert!(matches!(r, Err(ConstructError::ByteOutOfRange)));
}

#[test]
fn construct_other_errors() {
    let r = PyBytes::bytes_new(Some(PyObject::Int(-2)), None);
    assert!(matches!(r, Err(ConstructError::NegativeCount)));
    let r = PyBytes::bytes_new(Some(PyObject::Int(4)), Some(text("utf-8")));
    assert!(matches!(r, Err(ConstructError::EncodingWithoutString)));
    let r = PyBytes::bytes_new(None, Some(text("utf-8")));
    assert!(matches!(r, Err(ConstructError::EncodingWithoutString)));
    let r = PyBytes::bytes_new(Some(text("a")), Some(PyObject::Int(8)));
    assert!(matches!(r, Err(ConstructError::EncodingNotText)));
    let r = PyBytes::bytes_new(Some(text("a")), Some(text("klingon")));
    assert!(matches!(r, Err(ConstructError::UnknownEncoding)));
    let r = PyBytes::bytes_new(Some(text("h\u{e9}")), Some(text("ascii")));
    assert!(matches!(r, Err(ConstructError::EncodeFailed)));
    let r = PyBytes::bytes_new(Some(PyObject::NoneObj), None);
    assert!(matches!(r, Err(ConstructError::UnsupportedSource)));
}

#[test]
fn construct_from_text_with_encoding() {
    let b = PyBytes::bytes_new(Some(text("h\u{e9}llo")), Some(text("utf-8"))).unwrap();
    assert_eq!(b.as_slice(), &[104u8, 195, 169, 108, 108, 111]);
    let b = PyBytes::bytes_new(Some(text("\u{20ac}")), Some(text("utf8"))).unwrap();
    assert_eq!(b.as_slice(), &[0xe2u8, 0x82, 0xac]);
    let b = PyBytes::bytes_new(Some(text("abc")), Some(text("ascii"))).unwrap();
    assert_eq!(b.as_slice(), &[97u8, 98, 99]);
}

#[test]
fn construct_from_bytes_copies() {
    let b = PyBytes::bytes_new(Some(shared(&[9, 8, 7])), None).unwrap();
    assert_eq!(b.as_slice(), &[9u8, 8, 7]);
    let obj = shared(&[4, 5]);
    assert_eq!(get_value(&obj), &vec![4u8, 5]);
}

#[test]
fn iterator_signals_exhaustion_forever() {
    let mut it = PyBytes::iter(Rc::new(PyBytes::new(vec![10, 20])));
    assert_eq!(it.next(), Some(10));
    assert_eq!(it.next(), Some(20));
    assert_eq!(it.next(), None);
    assert_eq!(it.next(), None);
    assert_eq!(it.next(), None);
}

#[test]
fn iterators_over_one_value_are_independent() {
    let shared_value = Rc::new(PyBytes::new(vec![1, 2, 3]));
    let mut first = PyBytes::iter(Rc::clone(&shared_value));
    let mut second = PyBytes::iter(Rc::clone(&shared_value));
    assert_eq!(first.next(), Some(1));
    assert_eq!(first.next(), Some(2));
    assert_eq!(second.next(), Some(1));
    assert_eq!(first.next(), Some(3));
    assert_eq!(second.next(), Some(2));
    assert_eq!(shared_value.len(), 3);
}

#[test]
fn get_self_keeps_position() {
    let mut it = PyBytes::iter(Rc::new(PyBytes::new(vec![7, 8, 9])));
    assert_eq!(it.next(), Some(7));
    let mut same = it.iter();
    assert_eq!(same.next(), Some(8));
    assert_eq!(same.next(), Some(9));
    assert_eq!(same.next(), None);
}

#[test]
fn repr_of_hello() {
    let b = from_ints(&[104, 101, 108, 108, 111]);
    assert_eq!(b.repr(), "b'hello'");
}

#[test]
fn repr_escapes() {
    let b = PyBytes::new(vec![0, 9, 10, 13, 39, 92, 127, 255, 65, 32]);
    assert_eq!(b.repr(), "b'\\x00\\t\\n\\r\\'\\\\\\x7f\\xffA '");
    assert_eq!(PyBytes::new(vec![]).repr(), "b''");
    assert_eq!(PyBytes::new(vec![0xab, 0x1f]).repr(), "b'\\xab\\x1f'");
}

#[test]
fn example_values() {
    let three = PyBytes::bytes_new(Some(PyObject::Int(3)), None).unwrap();
    assert_eq!(three.len(), 3);
    assert!(three.as_slice().iter().all(|b| *b == 0));
    let a = from_ints(&[1, 2]);
    assert_eq!(a.lt(&shared(&[1, 3])), CompareResult::Bool(true));
    let e1 = from_ints(&[]);
    let e2 = from_ints(&[]);
    assert_eq!(e1.eq(&PyObject::Bytes(Rc::new(from_ints(&[])))), CompareResult::Bool(true));
    assert_eq!(e1.hash(), e2.hash());
}

#[test]
fn init_registers_named_operations() {
    let mut ctx = PyContext::new();
    init(&mut ctx);
    let bytes_class = PyBytes::class(&ctx);
    assert_eq!(bytes_class.lookup("__new__"), Some(NativeMethod::BytesNew));
    assert_eq!(bytes_class.lookup("__repr__"), Some(NativeMethod::BytesRepr));
    assert_eq!(bytes_class.lookup("__len__"), Some(NativeMethod::BytesLen));
    assert_eq!(bytes_class.lookup("__eq__"), Some(NativeMethod::BytesEq));
    assert_eq!(bytes_class.lookup("__ge__"), Some(NativeMethod::BytesGe));
    assert_eq!(bytes_class.lookup("__le__"), Some(NativeMethod::BytesLe));
    assert_eq!(bytes_class.lookup("__gt__"), Some(NativeMethod::BytesGt));
    assert_eq!(bytes_class.lookup("__lt__"), Some(NativeMethod::BytesLt));
    assert_eq!(bytes_class.lookup("__hash__"), Some(NativeMethod::BytesHash));
    assert_eq!(bytes_class.lookup("__iter__"), Some(NativeMethod::BytesIter));
    assert_eq!(bytes_class.lookup("__next__"), None);
    let iter_class = pybytes::bytes::PyBytesIterator::class(&ctx);
    assert_eq!(iter_class.lookup("__next__"), Some(NativeMethod::BytesIteratorNext));
    assert_eq!(iter_class.lookup("__iter__"), Some(NativeMethod::BytesIteratorIter));
    assert_eq!(iter_class.lookup("__len__"), None);
    assert_eq!(bytes_class.name, "bytes");
}

#[test]
fn later_binding_overrides_earlier() {
    let mut ctx = PyContext::new();
    ctx.bytes_type.add_method("__len__", NativeMethod::BytesHash);
    init(&mut ctx);
    assert_eq!(ctx.bytes_type.lookup("__len__"), Some(NativeMethod::BytesLen));
    ctx.bytes_type.add_method("__len__", NativeMethod::BytesRepr);
    assert_eq!(ctx.bytes_type.lookup("__len__"), Some(NativeMethod::BytesRepr));
}
