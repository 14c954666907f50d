use vstd::prelude::*;
use vstd::string::*;
use vstd::utf8::*;

use crate::object::PyObject;

verus! {

/// Strict lexicographic order on unsigned byte sequences: the first
/// differing byte decides, and a proper prefix comes first.
pub open spec fn lex_lt(a: Seq<u8>, b: Seq<u8>) -> bool
    decreases a.len(),
{
    if a.len() == 0 {
        b.len() > 0
    } else if b.len() == 0 {
        false
    } else if a[0] != b[0] {
        a[0] < b[0]
    } else {
        lex_lt(a.drop_first(), b.drop_first())
    }
}

/// Any two byte sequences are related in exactly one way: equal, the
/// first before the second, or the second before the first.
pub proof fn lemma_lex_trichotomy(a: Seq<u8>, b: Seq<u8>)
    ensures
        (a == b) || lex_lt(a, b) || lex_lt(b, a),
        !(a == b && lex_lt(a, b)),
        !(a == b && lex_lt(b, a)),
        !(lex_lt(a, b) && lex_lt(b, a)),
    decreases a.len(),
{
    if a.len() > 0 && b.len() > 0 && a[0] == b[0] {
        lemma_lex_trichotomy(a.drop_first(), b.drop_first());
        if a.drop_first() == b.drop_first() {
            assert(a =~= seq![a[0]] + a.drop_first());
            assert(b =~= seq![b[0]] + b.drop_first());
        }
    }
    if a == b {
        lemma_lex_lt_irreflexive(a);
    }
}

/// No byte sequence comes strictly before itself.
pub proof fn lemma_lex_lt_irreflexive(a: Seq<u8>)
    ensures
        !lex_lt(a, a),
    decreases a.len(),
{
    if a.len() > 0 {
        lemma_lex_lt_irreflexive(a.drop_first());
    }
}

/// The lexicographic order is transitive.
pub proof fn lemma_lex_lt_transitive(a: Seq<u8>, b: Seq<u8>, c: Seq<u8>)
    requires
        lex_lt(a, b),
        lex_lt(b, c),
    ensures
        lex_lt(a, c),
    decreases a.len(),
{
    if a.len() > 0 && b.len() > 0 && c.len() > 0 && a[0] == b[0] && b[0] == c[0] {
        lemma_lex_lt_transitive(a.drop_first(), b.drop_first(), c.drop_first());
    }
}

/// Why a bytes object could not be built from the given arguments.
#[derive(PartialEq, Eq, Structural, Clone, Copy, Debug)]
pub enum ConstructError {
    /// An element of an iterable source is not an integer.
    NotAnInteger,
    /// An element of an iterable source lies outside `0..=255`.
    ByteOutOfRange,
    /// A size source is negative.
    NegativeCount,
    /// A size source is larger than this machine can address.
    CountTooLarge,
    /// A text source came without an encoding name.
    StringWithoutEncoding,
    /// An encoding name came without a text source.
    EncodingWithoutString,
    /// The encoding argument is not a text value.
    EncodingNotText,
    /// The encoding name is not one this type knows.
    UnknownEncoding,
    /// The text holds a character that the encoding cannot represent.
    EncodeFailed,
    /// The source has none of the accepted shapes.
    UnsupportedSource,
}

/// The byte that one element of an iterable source stands for.
pub open spec fn item_byte(o: PyObject) -> Result<u8, ConstructError> {
    match o {
        PyObject::Int(v) => if 0 <= v <= 255 {
            Ok(v as u8)
        } else {
            Err(ConstructError::ByteOutOfRange)
        },
        _ => Err(ConstructError::NotAnInteger),
    }
}

/// The bytes that an iterable source stands for: its elements in order,
/// or the error of the first element that is not a byte.
pub open spec fn items_to_bytes(items: Seq<PyObject>) -> Result<Seq<u8>, ConstructError>
    decreases items.len(),
{
    if items.len() == 0 {
        Ok(Seq::empty())
    } else {
        match item_byte(items[0]) {
            Err(e) => Err(e),
            Ok(b) => match items_to_bytes(items.drop_first()) {
                Ok(rest) => Ok(seq![b] + rest),
                Err(e) => Err(e),
            },
        }
    }
}

/// The bytes of `text` in the encoding named `encoding`. Known names are
/// `utf-8`, `utf8` and `ascii`; ascii fails on any character above 127.
pub open spec fn encode_text(encoding: Seq<char>, text: Seq<char>) -> Result<Seq<u8>, ConstructError> {
    if encoding == "utf-8"@ || encoding == "utf8"@ {
        Ok(encode_utf8(text))
    } else if encoding == "ascii"@ {
        if is_ascii_chars(text) {
            Ok(encode_utf8(text))
        } else {
            Err(ConstructError::EncodeFailed)
        }
    } else {
        Err(ConstructError::UnknownEncoding)
    }
}

/// The bytes that a source and an optional encoding stand for: nothing
/// gives the empty sequence; a list gives its elements; a text value with
/// an encoding name gives its encoding; a non-negative integer gives that
/// many zero bytes; a bytes object gives a copy of its bytes.
pub open spec fn construct_spec(val: Option<PyObject>, enc: Option<PyObject>) -> Result<
    Seq<u8>,
    ConstructError,
> {
    match (val, enc) {
        (None, None) => Ok(Seq::empty()),
        (Some(PyObject::Str(_)), None) => Err(ConstructError::StringWithoutEncoding),
        (Some(PyObject::Str(text)), Some(PyObject::Str(name))) => encode_text(name@, text@),
        (Some(PyObject::Str(_)), Some(_)) => Err(ConstructError::EncodingNotText),
        (_, Some(_)) => Err(ConstructError::EncodingWithoutString),
        (Some(PyObject::Int(n)), None) => if n < 0 {
            Err(ConstructError::NegativeCount)
        } else if n > usize::MAX {
            Err(ConstructError::CountTooLarge)
        } else {
            Ok(Seq::new(n as nat, |i: int| 0u8))
        },
        (Some(PyObject::List(items)), None) => items_to_bytes(items@),
        (Some(PyObject::Bytes(b)), None) => Ok(b@),
        (Some(PyObject::NoneObj), None) => Err(ConstructError::UnsupportedSource),
    }
}

/// One step of the byte hash: multiply by the prime, mix in the byte.
pub open spec fn hash_step(h: usize, b: u8) -> usize {
    h.wrapping_mul(HASH_MULTIPLIER) ^ (b as usize)
}

/// The running hash after folding every byte of `s` into `seed`.
pub open spec fn hash_fold(s: Seq<u8>, seed: usize) -> usize
    decreases s.len(),
{
    if s.len() == 0 {
        seed
    } else {
        hash_step(hash_fold(s.drop_last(), seed), s.last())
    }
}

/// The hash of a byte sequence: zero when empty; otherwise the fold of
/// all bytes, seeded by the first byte shifted left by seven, with the
/// length mixed in at the end. It depends on the bytes alone.
pub open spec fn bytes_hash(s: Seq<u8>) -> usize {
    if s.len() == 0 {
        0
    } else {
        hash_fold(s, (s[0] as usize) << 7usize) ^ (s.len() as usize)
    }
}

/// The lower-case hexadecimal digit for `d`, which is below sixteen.
pub open spec fn hex_digit_spec(d: u8) -> char {
    if d < 10 {
        ((d + 48) as u8) as char
    } else {
        ((d + 87) as u8) as char
    }
}

/// How one byte is shown between the quotes of a bytes literal:
/// backslash and quote are escaped, tab, newline and carriage return
/// take their short escapes, other printable ASCII stands for itself,
/// and every other byte is written as `\x` and two hexadecimal digits.
pub open spec fn escape_byte(b: u8) -> Seq<char> {
    if b == 92 {
        seq!['\\', '\\']
    } else if b == 39 {
        seq!['\\', '\'']
    } else if b == 9 {
        seq!['\\', 't']
    } else if b == 10 {
        seq!['\\', 'n']
    } else if b == 13 {
        seq!['\\', 'r']
    } else if 32 <= b < 127 {
        seq![b as char]
    } else {
        seq!['\\', 'x', hex_digit_spec(b / 16), hex_digit_spec(b % 16)]
    }
}

/// The escaped form of a whole byte sequence, byte after byte.
pub open spec fn escape_bytes(s: Seq<u8>) -> Seq<char>
    decreases s.len(),
{
    if s.len() == 0 {
        Seq::empty()
    } else {
        escape_bytes(s.drop_last()) + escape_byte(s.last())
    }
}

/// The multiplier of the byte hash.
pub const HASH_MULTIPLIER: usize = 1000003;

/// Relies on String::push: the character is appended at the end.
#[verifier::external_body]
fn push_char(s: &mut String, c: char)
    ensures
        final(s)@ == old(s)@.push(c),
{
    s.push(c)
}

fn hex_digit(d: u8) -> (c: char)
    requires
        d < 16,
    ensures
        c == hex_digit_spec(d),
{
    if d < 10 {
        (d + 48) as char
    } else {
        (d + 87) as char
    }
}

/// Appends the escaped form of `b` to `out`.
fn push_escaped(out: &mut String, b: u8)
    ensures
        final(out)@ == old(out)@ + escape_byte(b),
{
    let ghost start = out@;
    if b == 92 {
        push_char(out, '\\');
        push_char(out, '\\');
    } else if b == 39 {
        push_char(out, '\\');
        push_char(out, '\'');
    } else if b == 9 {
        push_char(out, '\\');
        push_char(out, 't');
    } else if b == 10 {
        push_char(out, '\\');
        push_char(out, 'n');
    } else if b == 13 {
        push_char(out, '\\');
        push_char(out, 'r');
    } else if 32 <= b && b < 127 {
        push_char(out, b as char);
    } else {
        push_char(out, '\\');
        push_char(out, 'x');
        push_char(out, hex_digit(b / 16));
        push_char(out, hex_digit(b % 16));
    }
    assert(out@ =~= start + escape_byte(b));
}

fn copy_slice(b: &[u8]) -> (r: Vec<u8>)
    ensures
        r@ == b@,
{
    let mut out: Vec<u8> = Vec::new();
    let mut i: usize = 0;
    while i < b.len()
        invariant
            i <= b@.len(),
            out@ == b@.take(i as int),
        decreases b@.len() - i,
    {
        out.push(b[i]);
        i = i + 1;
        assert(out@ =~= b@.take(i as int));
    }
    assert(b@.take(i as int) =~= b@);
    out
}

fn zeros(n: usize) -> (r: Vec<u8>)
    ensures
        r@ == Seq::new(n as nat, |i: int| 0u8),
{
    let mut out: Vec<u8> = Vec::new();
    let mut i: usize = 0;
    while i < n
        invariant
            i <= n,
            out@ == Seq::new(i as nat, |k: int| 0u8),
        decreases n - i,
    {
        out.push(0u8);
        i = i + 1;
        assert(out@ =~= Seq::new(i as nat, |k: int| 0u8));
    }
    out
}

fn items_bytes(items: &Vec<PyObject>) -> (r: Result<Vec<u8>, ConstructError>)
    ensures
        match items_to_bytes(items@) {
            Ok(s) => r matches Ok(v) && v@ == s,
            Err(e) => r == Err::<Vec<u8>, ConstructError>(e),
        },
{
    let mut out: Vec<u8> = Vec::new();
    let mut i: usize = 0;
    assert(items@.skip(0) =~= items@);
    while i < items.len()
        invariant
            i <= items@.len(),
            items_to_bytes(items@) == match items_to_bytes(items@.skip(i as int)) {
                Ok(rest) => Ok(out@ + rest),
                Err(e) => Err(e),
            },
        decreases items@.len() - i,
    {
        let ghost tail = items@.skip(i as int);
        assert(tail.drop_first() =~= items@.skip(i + 1));
        assert(tail[0] == items@[i as int]);
        match &items[i] {
            PyObject::Int(v) => {
                if *v < 0 || *v > 255 {
                    return Err(ConstructError::ByteOutOfRange);
                }
                let ghost before = out@;
                out.push(*v as u8);
                proof {
                    match items_to_bytes(items@.skip(i + 1)) {
                        Ok(rest) => {
                            assert(before + (seq![*v as u8] + rest) =~= out@ + rest);
                        },
                        Err(e) => {},
                    }
                }
            },
            _ => {
                return Err(ConstructError::NotAnInteger);
            },
        }
        i = i + 1;
    }
    assert(items@.skip(i as int) =~= Seq::<PyObject>::empty());
    assert(out@ + Seq::<u8>::empty() =~= out@);
    Ok(out)
}

fn encode(name: &String, text: &String) -> (r: Result<Vec<u8>, ConstructError>)
    ensures
        match encode_text(name@, text@) {
            Ok(s) => r matches Ok(v) && v@ == s,
            Err(e) => r == Err::<Vec<u8>, ConstructError>(e),
        },
{
    let utf8_dash = String::from_str("utf-8");
    let utf8_plain = String::from_str("utf8");
    let ascii = String::from_str("ascii");
    let t = text.as_str();
    if *name == utf8_dash || *name == utf8_plain {
        Ok(copy_slice(t.as_bytes()))
    } else if *name == ascii {
        if t.is_ascii() {
            Ok(copy_slice(t.as_bytes()))
        } else {
            Err(ConstructError::EncodeFailed)
        }
    } else {
        Err(ConstructError::UnknownEncoding)
    }
}

/// The raw byte sequence held by a bytes object.
pub struct PyByteInner {
    pub elements: Vec<u8>,
}

impl View for PyByteInner {
    type V = Seq<u8>;

    open spec fn view(&self) -> Seq<u8> {
        self.elements@
    }
}

proof fn lemma_lex_lt_skip(a: Seq<u8>, b: Seq<u8>, i: int)
    requires
        0 <= i < a.len(),
        i < b.len(),
        a[i] == b[i],
    ensures
        lex_lt(a.skip(i), b.skip(i)) == lex_lt(a.skip(i + 1), b.skip(i + 1)),
{
    assert(a.skip(i).drop_first() =~= a.skip(i + 1));
    assert(b.skip(i).drop_first() =~= b.skip(i + 1));
}

/// Whether `a` comes strictly before `b` in lexicographic order.
fn bytes_lt(a: &[u8], b: &[u8]) -> (r: bool)
    ensures
        r == lex_lt(a@, b@),
{
    let mut i: usize = 0;
    assert(a@.skip(0) =~= a@);
    assert(b@.skip(0) =~= b@);
    while i < a.len() && i < b.len()
        invariant
            i <= a@.len(),
            i <= b@.len(),
            lex_lt(a@, b@) == lex_lt(a@.skip(i as int), b@.skip(i as int)),
        decreases a@.len() - i,
    {
        if a[i] != b[i] {
            return a[i] < b[i];
        }
        proof {
            lemma_lex_lt_skip(a@, b@, i as int);
        }
        i = i + 1;
    }
    a.len() < b.len()
}

/// Whether `a` and `b` hold the same bytes in the same order.
fn bytes_eq(a: &[u8], b: &[u8]) -> (r: bool)
    ensures
        r == (a@ == b@),
{
    if a.len() != b.len() {
        return false;
    }
    let mut i: usize = 0;
    while i < a.len()
        invariant
            i <= a@.len(),
            a@.len() == b@.len(),
            forall|k: int| 0 <= k < i ==> a@[k] == b@[k],
        decreases a@.len() - i,
    {
        if a[i] != b[i] {
            return false;
        }
        i = i + 1;
    }
    assert(a@ =~= b@);
    true
}

impl PyByteInner {
    /// Builds the payload from a source and an optional encoding name,
    /// by the rules of `construct_spec`.
    pub fn new(val_option: Option<PyObject>, enc_option: Option<PyObject>) -> (r: Result<
        PyByteInner,
        ConstructError,
    >)
        ensures
            match construct_spec(val_option, enc_option) {
                Ok(s) => r matches Ok(inner) && inner@ == s,
                Err(e) => r matches Err(e2) && e2 == e,
            },
    {
        let elements = match (val_option, enc_option) {
            (None, None) => Vec::new(),
            (Some(PyObject::Str(_)), None) => {
                return Err(ConstructError::StringWithoutEncoding);
            },
            (Some(PyObject::Str(text)), Some(PyObject::Str(name))) => {
                match encode(&name, &text) {
                    Ok(v) => v,
                    Err(e) => {
                        return Err(e);
                    },
                }
            },
            (Some(PyObject::Str(_)), Some(_)) => {
                return Err(ConstructError::EncodingNotText);
            },
            (_, Some(_)) => {
                return Err(ConstructError::EncodingWithoutString);
            },
            (Some(PyObject::Int(n)), None) => {
                if n < 0 {
                    return Err(ConstructError::NegativeCount);
                }
                if n as u64 > usize::MAX as u64 {
                    return Err(ConstructError::CountTooLarge);
                }
                zeros(n as usize)
            },
            (Some(PyObject::List(items)), None) => {
                match items_bytes(&items) {
                    Ok(v) => v,
                    Err(e) => {
                        return Err(e);
                    },
                }
            },
            (Some(PyObject::Bytes(b)), None) => copy_slice(b.as_slice()),
            (Some(PyObject::NoneObj), None) => {
                return Err(ConstructError::UnsupportedSource);
            },
        };
        Ok(PyByteInner { elements })
    }

    /// Number of bytes held.
    pub fn len(&self) -> (r: usize)
        ensures
            r == self@.len(),
    {
        self.elements.len()
    }

    /// Value equality.
    pub fn eq(&self, other: &PyByteInner) -> (r: bool)
        ensures
            r == (self@ == other@),
    {
        bytes_eq(self.elements.as_slice(), other.elements.as_slice())
    }

    /// Strictly less in lexicographic order.
    pub fn lt(&self, other: &PyByteInner) -> (r: bool)
        ensures
            r == lex_lt(self@, other@),
    {
        bytes_lt(self.elements.as_slice(), other.elements.as_slice())
    }
    /// Strictly greater in lexicographic order.
    pub fn gt(&self, other: &PyByteInner) -> (r: bool)
        ensures
            r == lex_lt(other@, self@),
    {
        bytes_lt(other.elements.as_slice(), self.elements.as_slice())
    }

    /// Greater than or equal: strictly greater, or equal.
    pub fn ge(&self, other: &PyByteInner) -> (r: bool)
        ensures
            r == (lex_lt(other@, self@) || self@ == other@),
    {
        proof {
            lemma_lex_trichotomy(self@, other@);
        }
        !bytes_lt(self.elements.as_slice(), other.elements.as_slice())
    }

    /// Less than or equal: strictly less, or equal.
    pub fn le(&self, other: &PyByteInner) -> (r: bool)
        ensures
            r == (lex_lt(self@, other@) || self@ == other@),
    {
        proof {
            lemma_lex_trichotomy(self@, other@);
        }
        !bytes_lt(other.elements.as_slice(), self.elements.as_slice())
    }
    /// The hash of the held bytes.
    pub fn hash(&self) -> (r: usize)
        ensures
            r == bytes_hash(self@),
    {
        let n = self.elements.len();
        if n == 0 {
            return 0;
        }
        let mut h: usize = (self.elements[0] as usize) << 7usize;
        let ghost seed = h;
        let mut i: usize = 0;
        while i < n
            invariant
                n == self@.len(),
                i <= n,
                seed == (self@[0] as usize) << 7usize,
                h == hash_fold(self@.take(i as int), seed),
            decreases n - i,
        {
            let b = self.elements[i];
            assert(self@.take(i + 1).drop_last() =~= self@.take(i as int));
            h = h.wrapping_mul(HASH_MULTIPLIER) ^ (b as usize);
            i = i + 1;
        }
        assert(self@.take(n as int) =~= self@);
        h ^ n
    }

    /// The escaped form of the held bytes, without the surrounding
    /// `b'` and `'`.
    pub fn repr(&self) -> (r: String)
        ensures
            r@ == escape_bytes(self@),
    {
        let mut out = String::new();
        let mut i: usize = 0;
        while i < self.elements.len()
            invariant
                i <= self@.len(),
                out@ == escape_bytes(self@.take(i as int)),
            decreases self@.len() - i,
        {
            assert(self@.take(i + 1).drop_last() =~= self@.take(i as int));
            push_escaped(&mut out, self.elements[i]);
            i = i + 1;
        }
        assert(self@.take(i as int) =~= self@);
        out
    }
}

} // verus!
